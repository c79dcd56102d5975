//! Turning a title into the text used in links ("slugs"), by two regular
//! expression replacements done with the `regex` crate.
use vstd::prelude::*;

verus! {

/// Whether `c` is in the Unicode general category `Nd` (decimal number), the
/// class that `\d` matches in the `regex` crate's default (Unicode) mode.
pub uninterp spec fn unicode_decimal_digit(c: char) -> bool;

/// A character that stands in a link as it is: an ASCII letter, a decimal
/// digit, or `:`. The only ASCII decimal digits are `0` to `9`, so beyond ASCII
/// the decimal digits are those of `unicode_decimal_digit`.
pub open spec fn kept_in_links(c: char) -> bool {
    ||| ('a' <= c && c <= 'z')
    ||| ('A' <= c && c <= 'Z')
    ||| ('0' <= c && c <= '9')
    ||| c == ':'
    ||| (c > '\x7f' && unicode_decimal_digit(c))
}

/// `s` with every maximal run of characters that are not kept in links replaced
/// by one `-`.
pub open spec fn dash_runs(s: Seq<char>) -> Seq<char>
    decreases s.len(),
{
    if s.len() == 0 {
        Seq::empty()
    } else if kept_in_links(s.last()) {
        dash_runs(s.drop_last()).push(s.last())
    } else if s.len() >= 2 && !kept_in_links(s[s.len() - 2]) {
        dash_runs(s.drop_last())
    } else {
        dash_runs(s.drop_last()).push('-')
    }
}

/// `s` without one leading `-` and without one trailing `-`.
pub open spec fn trim_edge_dashes(s: Seq<char>) -> Seq<char> {
    let t = if s.len() > 0 && s[0] == '-' {
        s.skip(1)
    } else {
        s
    };
    if t.len() > 0 && t.last() == '-' {
        t.drop_last()
    } else {
        t
    }
}

/// The pattern for a run of characters that may not stand in a link.
pub open spec fn unsafe_run_pattern() -> Seq<char> {
    "[^a-zA-Z\\d:]+"@
}

/// The pattern for a dash at the very start or the very end.
pub open spec fn edge_dash_pattern() -> Seq<char> {
    "(^-|-$)"@
}

/// Compiles `pattern` with `regex::Regex::new` and calls `Regex::replace_all` on
/// `haystack` with the literal `replacement`, taking the result as an owned string.
///
/// It is called with the two fixed patterns of `safe_str` alone, which are valid
/// regex syntax, so `Regex::new` succeeds and the `unwrap` cannot panic. Claimed,
/// from the `regex` documentation (`replace_all` replaces all non-overlapping
/// leftmost-first matches; `+` is greedy; a negated class matches any character
/// outside it; `\d` is Unicode `Nd`; `^` and `$` match only at the start and end of
/// the haystack without the `m` flag; a replacement without `$` is literal):
/// - `[^a-zA-Z\d:]+` with `-` replaces each maximal run of other characters by `-`
///   (so the only non-ASCII characters left are decimal digits);
/// - `(^-|-$)` with nothing drops a leading `-` and a trailing `-`.
#[verifier::external_body]
fn replace_all_matches(pattern: &str, haystack: &str, replacement: &str) -> (res: String)
    requires
        (pattern@ == unsafe_run_pattern() && replacement@ == "-"@) || (pattern@ == edge_dash_pattern()
            && replacement@ == ""@),
    ensures
        pattern@ == unsafe_run_pattern() ==> res@ == dash_runs(haystack@),
        pattern@ == unsafe_run_pattern() ==> forall|i: int|
            0 <= i < res@.len() && res@[i] > '\x7f' ==> unicode_decimal_digit(#[trigger] res@[i]),
        pattern@ == edge_dash_pattern() ==> res@ == trim_edge_dashes(haystack@),
{
    regex::Regex::new(pattern).unwrap().replace_all(haystack, replacement).into_owned()
}

/// The link text for `input`: every maximal run of characters other than ASCII
/// letters, decimal digits and `:` becomes one `-`, then a leading and a trailing
/// `-` are dropped.
pub open spec fn slug(input: Seq<char>) -> Seq<char> {
    trim_edge_dashes(dash_runs(input))
}

/// Makes `input` safe to stand in a link (see `slug`).
pub fn safe_str(input: &str) -> (res: String)
    ensures
        res@ == slug(input@),
{
    let dashed = replace_all_matches("[^a-zA-Z\\d:]+", input, "-");
    replace_all_matches("(^-|-$)", dashed.as_str(), "")
}

/// A text fit for links: only characters kept in links and single dashes, with
/// no dash at either end.
pub open spec fn link_safe(s: Seq<char>) -> bool {
    &&& forall|i: int| 0 <= i < s.len() ==> kept_in_links(#[trigger] s[i]) || s[i] == '-'
    &&& forall|i: int, j: int| 0 <= i && j == i + 1 && j < s.len() && #[trigger] s[i] == '-' ==> #[trigger] s[j] != '-'
    &&& s.len() > 0 ==> s[0] != '-' && s.last() != '-'
}

/// What `dash_runs` leaves: kept characters and single dashes, ending in a dash
/// exactly when the input ends in a character that is not kept.
proof fn lemma_dash_runs_shape(s: Seq<char>)
    ensures
        forall|i: int| 0 <= i < dash_runs(s).len() ==> kept_in_links(#[trigger] dash_runs(s)[i]) || dash_runs(s)[i] == '-',
        forall|i: int, j: int|
            0 <= i && j == i + 1 && j < dash_runs(s).len() && #[trigger] dash_runs(s)[i] == '-' ==> #[trigger] dash_runs(s)[j] != '-',
        dash_runs(s).len() > 0 <==> s.len() > 0,
        s.len() > 0 && kept_in_links(s.last()) ==> dash_runs(s).last() == s.last(),
        s.len() > 0 && !kept_in_links(s.last()) ==> dash_runs(s).last() == '-',
    decreases s.len(),
{
    if s.len() > 0 {
        let rest = s.drop_last();
        lemma_dash_runs_shape(rest);
        if s.len() >= 2 {
            assert(rest.last() == s[s.len() - 2]);
        }
    }
}

/// A text of kept characters and single dashes is left as it is by `dash_runs`.
proof fn lemma_dash_runs_keeps_single_dashes(s: Seq<char>)
    requires
        forall|i: int| 0 <= i < s.len() ==> kept_in_links(#[trigger] s[i]) || s[i] == '-',
        forall|i: int, j: int| 0 <= i && j == i + 1 && j < s.len() && #[trigger] s[i] == '-' ==> #[trigger] s[j] != '-',
    ensures
        dash_runs(s) == s,
    decreases s.len(),
{
    if s.len() > 0 {
        let rest = s.drop_last();
        assert forall|i: int| 0 <= i < rest.len() implies kept_in_links(#[trigger] rest[i]) || rest[i] == '-' by {
            assert(rest[i] == s[i]);
        }
        assert forall|i: int, j: int| 0 <= i && j == i + 1 && j < rest.len() && #[trigger] rest[i] == '-'
            implies #[trigger] rest[j] != '-' by {
            assert(rest[i] == s[i] && rest[j] == s[j]);
        }
        lemma_dash_runs_keeps_single_dashes(rest);
        let n = s.len() - 1;
        assert(s[n] == s.last());
        if !kept_in_links(s.last()) && s.len() >= 2 {
            assert(s[n] == '-');
            assert(s[n - 1] != '-');
            assert(kept_in_links(s[n - 1]));
        }
        assert(s =~= rest.push(s.last()));
    }
}

/// Every link text is fit for links: it holds only letters, decimal digits, `:`
/// and single dashes, and neither starts nor ends with a dash.
pub proof fn lemma_slug_is_link_safe(input: Seq<char>)
    ensures
        link_safe(slug(input)),
{
    let d = dash_runs(input);
    lemma_dash_runs_shape(input);
    let t = if d.len() > 0 && d[0] == '-' {
        d.skip(1)
    } else {
        d
    };
    assert forall|i: int| 0 <= i < t.len() implies kept_in_links(#[trigger] t[i]) || t[i] == '-' by {
        if d.len() > 0 && d[0] == '-' {
            assert(t[i] == d[i + 1]);
        }
    }
    assert forall|i: int, j: int| 0 <= i && j == i + 1 && j < t.len() && #[trigger] t[i] == '-'
        implies #[trigger] t[j] != '-' by {
        if d.len() > 0 && d[0] == '-' {
            assert(t[i] == d[i + 1] && t[j] == d[j + 1]);
        }
    }
    if t.len() > 0 {
        if d.len() > 0 && d[0] == '-' {
            assert(t[0] == d[1]);
        }
        assert(t[0] != '-');
    }
    let r = slug(input);
    assert(r == (if t.len() > 0 && t.last() == '-' { t.drop_last() } else { t }));
    if t.len() > 0 && t.last() == '-' {
        assert(t.len() >= 2);
        assert(t[t.len() - 1] == '-');
        assert(t[t.len() - 2] != '-');
        assert forall|i: int| 0 <= i < r.len() implies kept_in_links(#[trigger] r[i]) || r[i] == '-' by {
            assert(r[i] == t[i]);
        }
        assert forall|i: int, j: int| 0 <= i && j == i + 1 && j < r.len() && #[trigger] r[i] == '-'
            implies #[trigger] r[j] != '-' by {
            assert(r[i] == t[i] && r[j] == t[j]);
        }
        assert(r[0] == t[0]);
        assert(r.last() == t[t.len() - 2]);
    }
}

/// A text already fit for links is its own link text.
pub proof fn lemma_slug_keeps_link_safe_text(s: Seq<char>)
    requires
        link_safe(s),
    ensures
        slug(s) == s,
{
    lemma_dash_runs_keeps_single_dashes(s);
}

/// Making a link text twice gives the same as making it once.
pub proof fn lemma_slug_idempotent(input: Seq<char>)
    ensures
        slug(slug(input)) == slug(input),
{
    lemma_slug_is_link_safe(input);
    lemma_slug_keeps_link_safe_text(slug(input));
}

/// A text made only of characters kept in links is its own link text.
pub proof fn lemma_slug_keeps_plain_text(s: Seq<char>)
    requires
        forall|i: int| 0 <= i < s.len() ==> kept_in_links(#[trigger] s[i]),
    ensures
        slug(s) == s,
{
    if s.len() > 0 {
        assert(kept_in_links(s[0]));
        assert(kept_in_links(s[s.len() - 1]));
    }
    lemma_slug_keeps_link_safe_text(s);
}

} // verus!
