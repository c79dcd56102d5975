//! Which log records are kept: records of the noisy `tokio_io` and
//! `tokio_reactor` crates are dropped.
use vstd::prelude::*;
use vstd::string::StrSliceExecFns;

use crate::text::str_equal;

verus! {

/// The position of the first `::` in `s` at or after `i`, or `s.len()` if none.
pub open spec fn separator_from(s: Seq<char>, i: int) -> int
    decreases s.len() - i,
{
    if i + 1 >= s.len() {
        s.len() as int
    } else if s[i] == ':' && s[i + 1] == ':' {
        i
    } else {
        separator_from(s, i + 1)
    }
}

/// The first `::`-separated piece of a module path (its crate).
pub open spec fn first_segment(module: Seq<char>) -> Seq<char> {
    module.take(separator_from(module, 0))
}

/// The crates whose records are dropped.
pub open spec fn filtered_crates() -> Seq<Seq<char>> {
    seq!["tokio_io"@, "tokio_reactor"@]
}

/// A record from `module` is kept unless its crate is a filtered one.
pub open spec fn keeps_record(module: Seq<char>) -> bool {
    !filtered_crates().contains(first_segment(module))
}

proof fn lemma_separator_bounds(s: Seq<char>, i: int)
    requires
        0 <= i <= s.len(),
    ensures
        i <= separator_from(s, i) <= s.len(),
    decreases s.len() - i,
{
    if i + 1 < s.len() && !(s[i] == ':' && s[i + 1] == ':') {
        lemma_separator_bounds(s, i + 1);
    }
}

/// The crates whose records are dropped.
pub fn filtered_modules() -> (res: Vec<&'static str>)
    ensures
        res@.map_values(|m: &str| m@) == filtered_crates(),
{
    let res = vec!["tokio_io", "tokio_reactor"];
    assert(res@.map_values(|m: &str| m@) =~= filtered_crates());
    res
}

/// The position of the first `::` in `module`, or its length if there is none.
fn separator_index(module: &str) -> (res: usize)
    ensures
        res == separator_from(module@, 0),
        res <= module@.len(),
{
    proof {
        lemma_separator_bounds(module@, 0);
    }
    let n = module.unicode_len();
    let mut i: usize = 0;
    while i < n && i + 1 < n
        invariant
            n == module@.len(),
            i <= n,
            separator_from(module@, 0) == separator_from(module@, i as int),
        decreases n - i,
    {
        if module.get_char(i) == ':' && module.get_char(i + 1) == ':' {
            return i;
        }
        i = i + 1;
    }
    n
}

/// Whether to keep a log record from `module` (a `::`-separated module path).
pub fn filter_records(module: &str) -> (res: bool)
    ensures
        res == keeps_record(module@),
{
    let end = separator_index(module);
    let segment = module.substring_char(0, end);
    let filtered = filtered_modules();
    let mut k: usize = 0;
    while k < filtered.len()
        invariant
            k <= filtered.len(),
            filtered@.map_values(|m: &str| m@) == filtered_crates(),
            segment@ == first_segment(module@),
            forall|j: int| 0 <= j < k ==> #[trigger] filtered_crates()[j] != segment@,
        decreases filtered.len() - k,
    {
        if str_equal(segment, filtered[k]) {
            assert(filtered_crates()[k as int] == segment@);
            return false;
        }
        k = k + 1;
    }
    true
}

/// The first `::` at or after `i` is at `n`, when no colon comes in between.
proof fn lemma_separator_at(s: Seq<char>, i: int, n: int)
    requires
        0 <= i <= n <= s.len(),
        forall|j: int| i <= j < n ==> #[trigger] s[j] != ':',
        n == s.len() || (n + 1 < s.len() && s[n] == ':' && s[n + 1] == ':'),
    ensures
        separator_from(s, i) == n,
    decreases n - i,
{
    if i < n {
        assert(s[i] != ':');
        if i + 1 < s.len() {
            lemma_separator_at(s, i + 1, n);
        }
    }
}

/// A log record is dropped exactly when its module path names the crate
/// `tokio_io` or `tokio_reactor`: that name alone, or followed by `::` and more.
pub proof fn lemma_record_kept_by_crate(module: Seq<char>, krate: Seq<char>, rest: Seq<char>)
    requires
        forall|j: int| 0 <= j < krate.len() ==> #[trigger] krate[j] != ':',
        module == krate || module == krate + "::"@ + rest,
    ensures
        keeps_record(module) <==> (krate != "tokio_io"@ && krate != "tokio_reactor"@),
{
    reveal_strlit("::");
    if module == krate {
        lemma_separator_at(module, 0, module.len() as int);
    } else {
        assert(module[krate.len() as int] == ':');
        assert(module[krate.len() as int + 1] == ':');
        assert forall|j: int| 0 <= j < krate.len() implies #[trigger] module[j] != ':' by {
            assert(module[j] == krate[j]);
        }
        lemma_separator_at(module, 0, krate.len() as int);
    }
    assert(first_segment(module) =~= krate);
    let crates = filtered_crates();
    assert(crates[0] == "tokio_io"@);
    assert(crates[1] == "tokio_reactor"@);
    if crates.contains(krate) {
        let i = choose|i: int| 0 <= i < crates.len() && crates[i] == krate;
        assert(i == 0 || i == 1);
    }
}

} // verus!
