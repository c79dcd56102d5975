//! Natural ("human") ordering of strings, as `natord` defines it, and a
//! stable sort that puts a list of strings in that order.
use vstd::prelude::*;
use std::cmp::Ordering;

verus! {

/// How one string compares with another in natural order.
#[derive(Clone, Copy, Debug, PartialEq, Eq, Structural)]
pub enum NaturalOrder {
    Less,
    Equal,
    Greater,
}

impl NaturalOrder {
    /// The answer for the two strings taken the other way round.
    pub open spec fn reversed(self) -> NaturalOrder {
        match self {
            NaturalOrder::Less => NaturalOrder::Greater,
            NaturalOrder::Equal => NaturalOrder::Equal,
            NaturalOrder::Greater => NaturalOrder::Less,
        }
    }
}

/// What `natord::compare` answers for two strings, by their characters.
pub uninterp spec fn natord_compare(left: Seq<char>, right: Seq<char>) -> Ordering;

/// How `left` compares with `right` in natural order: the answer of
/// `natord::compare`, as a `NaturalOrder`.
pub open spec fn natural_order(left: Seq<char>, right: Seq<char>) -> NaturalOrder {
    match natord_compare(left, right) {
        Ordering::Less => NaturalOrder::Less,
        Ordering::Equal => NaturalOrder::Equal,
        Ordering::Greater => NaturalOrder::Greater,
    }
}

/// An ASCII decimal digit.
pub open spec fn is_digit(c: char) -> bool {
    '0' <= c && c <= '9'
}

/// A printable ASCII character: neither a space nor a control character.
pub open spec fn is_visible(c: char) -> bool {
    '!' <= c && c <= '~'
}

/// A printable ASCII character that is not a digit, such as a letter or a dot.
pub open spec fn is_mark(c: char) -> bool {
    is_visible(c) && !is_digit(c)
}

/// `longer` is `shorter` followed by more text, with a printable character in it.
pub open spec fn extends_visibly(shorter: Seq<char>, longer: Seq<char>) -> bool {
    &&& shorter.len() < longer.len()
    &&& longer.subrange(0, shorter.len() as int) == shorter
    &&& exists|k: int| shorter.len() <= k < longer.len() && #[trigger] is_visible(longer[k])
}

/// The two strings agree on their first `k` characters and differ at position
/// `k`, where each holds a printable character that is not a digit.
pub open spec fn differ_at_mark(left: Seq<char>, right: Seq<char>, k: int) -> bool {
    &&& 0 <= k && k < left.len() && k < right.len()
    &&& left.subrange(0, k) == right.subrange(0, k)
    &&& is_mark(left[k]) && is_mark(right[k])
    &&& left[k] != right[k]
}

/// The value of one decimal digit.
pub open spec fn digit_value(c: char) -> nat {
    (c as int - '0' as int) as nat
}

/// The value of a string of decimal digits.
pub open spec fn digits_value(s: Seq<char>) -> nat
    decreases s.len(),
{
    if s.len() == 0 {
        0
    } else {
        digits_value(s.drop_last()) * 10 + digit_value(s.last())
    }
}

/// `s[k..k + n]` is a whole number written in `s`: a run of `n` digits that does
/// not start with `0`, with no digit just before or just after it.
pub open spec fn number_at(s: Seq<char>, k: int, n: int) -> bool {
    &&& 0 <= k && 1 <= n && k + n <= s.len()
    &&& forall|i: int| k <= i < k + n ==> is_digit(#[trigger] s[i])
    &&& s[k] != '0'
    &&& k == 0 || !is_digit(s[k - 1])
    &&& k + n == s.len() || !is_digit(s[k + n])
}

/// The two strings agree on their first `k` characters, and there each has a
/// whole number (of `n` and of `m` digits), the two numbers being different.
pub open spec fn numbers_differ_at(left: Seq<char>, right: Seq<char>, k: int, n: int, m: int) -> bool {
    &&& left.subrange(0, k) == right.subrange(0, k)
    &&& number_at(left, k, n)
    &&& number_at(right, k, m)
    &&& digits_value(left.subrange(k, k + n)) != digits_value(right.subrange(k, k + m))
}

/// `natord::compare` (natord 1.0.9): case-sensitive natural order, which skips
/// Unicode whitespace and reads each run of ASCII digits as one number.
///
/// Claimed of it, as its source shows (`compare_iter` walks the two strings in
/// step, in mirrored branches for left and right, and compares other characters
/// with `char::cmp`):
/// - the answer depends on the two strings' characters alone (`natord_compare`),
///   and swapping the arguments reverses it;
/// - a string comes before a longer one that starts with it and adds a printable
///   character;
/// - where the strings first differ at two printable characters that are not
///   digits, those two decide, in `char` order;
/// - where the strings agree up to two whole numbers without leading zeros, the
///   smaller number comes first.
///
/// Nothing is claimed about transitivity, nor about numbers with leading zeros,
/// whitespace or other characters at the first difference.
pub assume_specification[natord::compare](left: &str, right: &str) -> (res: Ordering)
    ensures
        res == natord_compare(left@, right@),
        natord_compare(right@, left@) == match res {
            Ordering::Less => Ordering::Greater,
            Ordering::Equal => Ordering::Equal,
            Ordering::Greater => Ordering::Less,
        },
        extends_visibly(left@, right@) ==> res == Ordering::Less,
        extends_visibly(right@, left@) ==> res == Ordering::Greater,
        forall|k: int| #[trigger] differ_at_mark(left@, right@, k) ==> res == if left@[k] < right@[k] {
            Ordering::Less
        } else {
            Ordering::Greater
        },
        forall|k: int, n: int, m: int| #[trigger] numbers_differ_at(left@, right@, k, n, m) ==> res == if digits_value(
            left@.subrange(k, k + n),
        ) < digits_value(right@.subrange(k, k + m)) {
            Ordering::Less
        } else {
            Ordering::Greater
        },
;

/// Compares two strings in natural order: runs of digits are compared as
/// numbers (`9` < `9.5` < `10`), other characters one by one, whitespace is
/// skipped.
pub fn natural_compare(left: &str, right: &str) -> (res: NaturalOrder)
    ensures
        res == natural_order(left@, right@),
        natural_order(right@, left@) == res.reversed(),
        extends_visibly(left@, right@) ==> res == NaturalOrder::Less,
        extends_visibly(right@, left@) ==> res == NaturalOrder::Greater,
        forall|k: int| #[trigger] differ_at_mark(left@, right@, k) ==> res == if left@[k] < right@[k] {
            NaturalOrder::Less
        } else {
            NaturalOrder::Greater
        },
        forall|k: int, n: int, m: int| #[trigger] numbers_differ_at(left@, right@, k, n, m) ==> res == if digits_value(
            left@.subrange(k, k + n),
        ) < digits_value(right@.subrange(k, k + m)) {
            NaturalOrder::Less
        } else {
            NaturalOrder::Greater
        },
{
    match natord::compare(left, right) {
        std::cmp::Ordering::Less => NaturalOrder::Less,
        std::cmp::Ordering::Equal => NaturalOrder::Equal,
        std::cmp::Ordering::Greater => NaturalOrder::Greater,
    }
}

/// `order` lists each of the indices `0..n` exactly once.
pub open spec fn is_index_permutation(order: Seq<usize>, n: nat) -> bool {
    &&& order.len() == n
    &&& order.no_duplicates()
    &&& forall|k: int| 0 <= k < order.len() ==> #[trigger] order[k] < n
}

/// Each key is, in natural order, not before the key just ahead of it (a
/// property of neighbours only).
pub open spec fn neighbours_in_natural_order(keys: Seq<Seq<char>>) -> bool {
    forall|i: int, j: int|
        0 <= i && j == i + 1 && j < keys.len() ==> #[trigger] natural_order(keys[j], keys[i])
            != NaturalOrder::Less
}

/// The keys picked out by `order`, in that order.
pub open spec fn keys_in_order(keys: Seq<&str>, order: Seq<usize>) -> Seq<Seq<char>> {
    order.map_values(|j: usize| keys[j as int]@)
}

/// The views of a list of keys.
pub open spec fn key_views(keys: Seq<&str>) -> Seq<Seq<char>> {
    keys.map_values(|k: &str| k@)
}

/// Keys that compare equal keep the relative order of their positions.
pub open spec fn stable_order(keys: Seq<Seq<char>>, order: Seq<usize>) -> bool {
    forall|a: int, b: int|
        #![trigger order[a], order[b]]
        0 <= a < b < order.len() && natural_order(keys[order[a] as int], keys[order[b] as int])
            == NaturalOrder::Equal ==> order[a] < order[b]
}

/// The positions `0..n` in their own order.
pub open spec fn identity_order(n: nat) -> Seq<usize> {
    Seq::new(n, |j: int| j as usize)
}

/// The positions of `keys` arranged so that the keys are in natural order.
/// The sort is stable: keys that compare equal keep their relative order; in
/// particular keys already in natural order are left where they are.
pub fn natural_sort_order(keys: &Vec<&str>) -> (order: Vec<usize>)
    ensures
        is_index_permutation(order@, keys@.len()),
        neighbours_in_natural_order(keys_in_order(keys@, order@)),
        stable_order(key_views(keys@), order@),
        neighbours_in_natural_order(key_views(keys@)) ==> order@ == identity_order(keys@.len()),
{
    let mut order: Vec<usize> = Vec::new();
    let mut i: usize = 0;
    while i < keys.len()
        invariant
            i <= keys.len(),
            is_index_permutation(order@, i as nat),
            neighbours_in_natural_order(keys_in_order(keys@, order@)),
            stable_order(key_views(keys@), order@),
            neighbours_in_natural_order(key_views(keys@)) ==> order@ == identity_order(i as nat),
        decreases keys.len() - i,
    {
        let mut k: usize = order.len();
        loop
            invariant_except_break
                k <= order.len(),
                k < order.len() ==> natural_order(keys@[order@[k as int] as int]@, keys@[i as int]@)
                    == NaturalOrder::Greater,
                forall|m: int| k <= m < order@.len() ==> #[trigger] natural_order(keys@[i as int]@, keys@[order@[m] as int]@)
                    == NaturalOrder::Less,
                neighbours_in_natural_order(key_views(keys@)) ==> k == order.len(),
            invariant
                i < keys.len(),
                is_index_permutation(order@, i as nat),
                neighbours_in_natural_order(keys_in_order(keys@, order@)),
                stable_order(key_views(keys@), order@),
                neighbours_in_natural_order(key_views(keys@)) ==> order@ == identity_order(i as nat),
            ensures
                k <= order.len(),
                k < order.len() ==> natural_order(keys@[order@[k as int] as int]@, keys@[i as int]@)
                    == NaturalOrder::Greater,
                forall|m: int| k <= m < order@.len() ==> #[trigger] natural_order(keys@[i as int]@, keys@[order@[m] as int]@)
                    == NaturalOrder::Less,
                neighbours_in_natural_order(key_views(keys@)) ==> k == order.len(),
                k > 0 ==> natural_order(keys@[i as int]@, keys@[order@[k - 1] as int]@)
                    != NaturalOrder::Less,
            decreases k,
        {
            if k == 0 {
                break;
            }
            let c = natural_compare(keys[i], keys[order[k - 1]]);
            if c == NaturalOrder::Less {
                proof {
                    if neighbours_in_natural_order(key_views(keys@)) {
                        assert(order@[k - 1] == k - 1);
                        let kv = key_views(keys@);
                        assert(natural_order(kv[i as int], kv[i - 1]) != NaturalOrder::Less);
                    }
                }
                k = k - 1;
            } else {
                break;
            }
        }
        let ghost before = order@;
        order.insert(k, i);
        proof {
            let after = order@;
            assert(after =~= before.insert(k as int, i));
            assert forall|a: int, b: int| 0 <= a < after.len() && 0 <= b < after.len() && a != b
                implies after[a] != after[b] by {
                if a != k && b != k {
                    let a0 = if a < k { a } else { a - 1 };
                    let b0 = if b < k { b } else { b - 1 };
                    assert(after[a] == before[a0]);
                    assert(after[b] == before[b0]);
                } else if a == k {
                    let b0 = if b < k { b } else { b - 1 };
                    assert(before[b0] < i);
                } else {
                    let a0 = if a < k { a } else { a - 1 };
                    assert(before[a0] < i);
                }
            }
            assert forall|m: int| 0 <= m < after.len() implies #[trigger] after[m] < i + 1 by {
                if m < k {
                    assert(after[m] == before[m]);
                } else if m > k {
                    assert(after[m] == before[m - 1]);
                }
            }
            let kv = key_views(keys@);
            assert forall|a: int, b: int|
                #![trigger after[a], after[b]]
                0 <= a < b < after.len() && natural_order(kv[after[a] as int], kv[after[b] as int])
                    == NaturalOrder::Equal implies after[a] < after[b] by {
                if b < k {
                    assert(after[a] == before[a] && after[b] == before[b]);
                } else if a > k {
                    assert(after[a] == before[a - 1] && after[b] == before[b - 1]);
                } else if a < k && b > k {
                    assert(after[a] == before[a] && after[b] == before[b - 1]);
                } else if b == k {
                    assert(after[a] == before[a]);
                } else {
                    assert(a == k);
                    assert(after[b] == before[b - 1]);
                    assert(natural_order(keys@[i as int]@, keys@[before[b - 1] as int]@) == NaturalOrder::Less);
                }
            }
            if neighbours_in_natural_order(kv) {
                assert(after =~= identity_order((i + 1) as nat));
            }
            let ks = keys_in_order(keys@, after);
            let ks0 = keys_in_order(keys@, before);
            assert forall|p: int, q: int| 0 <= p && q == p + 1 && q < ks.len()
                implies #[trigger] natural_order(ks[q], ks[p]) != NaturalOrder::Less by {
                if q < k {
                    assert(ks[p] == ks0[p] && ks[q] == ks0[q]);
                } else if p > k {
                    assert(ks[p] == ks0[p - 1] && ks[q] == ks0[q - 1]);
                } else if q == k {
                    assert(ks[q] == keys@[i as int]@);
                    assert(ks[p] == keys@[before[k - 1] as int]@);
                } else {
                    assert(p == k);
                    assert(ks[p] == keys@[i as int]@);
                    assert(ks[q] == keys@[before[k as int] as int]@);
                }
            }
        }
        i = i + 1;
    }
    order
}

} // verus!
