//! String building blocks shared by the rest of the library.
use vstd::prelude::*;
use vstd::string::*;

verus! {

/// `list[0] + sep + list[1] + sep + ... + list[n-1]`; the empty list joins to the empty string.
pub open spec fn seq_join(list: Seq<Seq<char>>, sep: Seq<char>) -> Seq<char>
    decreases list.len(),
{
    if list.len() == 0 {
        Seq::empty()
    } else if list.len() == 1 {
        list[0]
    } else {
        seq_join(list.drop_last(), sep) + sep + list.last()
    }
}

/// Joining puts the separator only between items: one item joins to itself, and a
/// longer list joins to its first item, the separator, and the join of the rest.
pub proof fn lemma_join_front(list: Seq<Seq<char>>, sep: Seq<char>)
    ensures
        list.len() == 1 ==> seq_join(list, sep) == list[0],
        list.len() >= 2 ==> seq_join(list, sep) == list[0] + sep + seq_join(list.drop_first(), sep),
    decreases list.len(),
{
    if list.len() == 2 {
        let rest = list.drop_first();
        let front = list.drop_last();
        assert(front[0] == list[0]);
        assert(seq_join(front, sep) == list[0]);
        assert(rest[0] == list.last());
        assert(seq_join(rest, sep) == list.last());
        assert(seq_join(list, sep) == seq_join(front, sep) + sep + list.last());
    } else if list.len() > 2 {
        let front = list.drop_last();
        let rest = list.drop_first();
        lemma_join_front(front, sep);
        assert(front[0] == list[0]);
        assert(front.drop_first() =~= rest.drop_last());
        assert(rest.last() == list.last());
        let a = list[0];
        let m = seq_join(rest.drop_last(), sep);
        let z = list.last();
        assert(seq_join(front, sep) == a + sep + m);
        assert(seq_join(list, sep) == seq_join(front, sep) + sep + z);
        assert(seq_join(rest, sep) == m + sep + z);
        assert(a + sep + m + sep + z =~= a + sep + (m + sep + z));
    }
}

/// The views of a list of strings.
pub open spec fn string_views(list: Seq<&String>) -> Seq<Seq<char>> {
    list.map_values(|s: &String| s@)
}

/// Joins `list` with `sep` between consecutive items.
pub fn join_strings(list: &Vec<&String>, sep: &str) -> (res: String)
    ensures
        res@ == seq_join(string_views(list@), sep@),
{
    let mut res = String::new();
    let ghost views = string_views(list@);
    let mut i: usize = 0;
    while i < list.len()
        invariant
            i <= list.len(),
            views == string_views(list@),
            res@ == seq_join(views.take(i as int), sep@),
        decreases list.len() - i,
    {
        if i != 0 {
            res.append(sep);
        }
        res.append(list[i].as_str());
        assert(views.take(i + 1).drop_last() =~= views.take(i as int));
        i = i + 1;
    }
    assert(views.take(list.len() as int) =~= views);
    res
}

/// `a + b` as a new string.
pub fn concat2(a: &str, b: &str) -> (res: String)
    ensures
        res@ == a@ + b@,
{
    let mut res = a.to_owned();
    res.append(b);
    res
}

/// `a + b + c` as a new string.
pub fn concat3(a: &str, b: &str, c: &str) -> (res: String)
    ensures
        res@ == a@ + b@ + c@,
{
    let mut res = a.to_owned();
    res.append(b);
    res.append(c);
    res
}

/// `a + b + c + d` as a new string.
pub fn concat4(a: &str, b: &str, c: &str, d: &str) -> (res: String)
    ensures
        res@ == a@ + b@ + c@ + d@,
{
    let mut res = a.to_owned();
    res.append(b);
    res.append(c);
    res.append(d);
    res
}

/// Whether two strings hold the same characters.
pub fn str_equal(a: &str, b: &str) -> (res: bool)
    ensures
        res == (a@ == b@),
{
    let x = a.to_owned();
    let y = b.to_owned();
    x == y
}

} // verus!
