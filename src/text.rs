use vstd::prelude::*;

verus! {

/// `pat` occurs in `s` as the contiguous run that starts at position `i`.
pub open spec fn occurs_at(s: Seq<char>, pat: Seq<char>, i: int) -> bool {
    0 <= i && i + pat.len() <= s.len() && s.subrange(i, i + pat.len()) == pat
}

/// `pat` occurs somewhere in `s` as a contiguous substring.
pub open spec fn occurs_in(s: Seq<char>, pat: Seq<char>) -> bool {
    exists|i: int| occurs_at(s, pat, i)
}

/// `s` with every occurrence of `pat` replaced by `rep`, scanning left to
/// right and resuming after each match, so matches never overlap. The empty
/// pattern matches at every character boundary: `rep` is put before each
/// character and once more at the end.
pub open spec fn replaced(s: Seq<char>, pat: Seq<char>, rep: Seq<char>) -> Seq<char>
    decreases s.len(),
{
    if pat.len() == 0 {
        if s.len() == 0 {
            rep
        } else {
            rep + seq![s[0]] + replaced(s.drop_first(), pat, rep)
        }
    } else if s.len() < pat.len() {
        s
    } else if s.subrange(0, pat.len() as int) == pat {
        rep + replaced(s.subrange(pat.len() as int, s.len() as int), pat, rep)
    } else {
        seq![s[0]] + replaced(s.drop_first(), pat, rep)
    }
}

/// The lowercase form of a string, as `str::to_lowercase` computes it.
pub uninterp spec fn lower_of(s: Seq<char>) -> Seq<char>;

/// Whether `line` holds `search`: literally when `case_sensitive`, else after
/// both are lowercased.
pub open spec fn line_matches(line: Seq<char>, search: Seq<char>, case_sensitive: bool) -> bool {
    if case_sensitive {
        occurs_in(line, search)
    } else {
        occurs_in(lower_of(line), lower_of(search))
    }
}

/// `line` with every occurrence of `search` replaced by `rep`. When not
/// `case_sensitive`, the whole line is lowercased first and the lowercased
/// `search` is what is replaced.
pub open spec fn transformed(
    line: Seq<char>,
    search: Seq<char>,
    rep: Seq<char>,
    case_sensitive: bool,
) -> Seq<char> {
    if case_sensitive {
        replaced(line, search, rep)
    } else {
        replaced(lower_of(line), lower_of(search), rep)
    }
}

/// Relies on `str::contains` with a `&str` pattern: true iff the pattern is a
/// substring of the haystack (the empty pattern is a substring of every string).
#[verifier::external_body]
fn str_contains(s: &str, pat: &str) -> (r: bool)
    ensures
        r == occurs_in(s@, pat@),
{
    s.contains(pat)
}

/// Relies on `str::replace` with a `&str` pattern: the non-overlapping matches
/// found from the left are each replaced; the empty pattern matches at every
/// character boundary.
#[verifier::external_body]
fn str_replace(s: &str, pat: &str, rep: &str) -> (r: String)
    ensures
        r@ == replaced(s@, pat@, rep@),
{
    s.replace(pat, rep)
}

/// Relies on `str::to_lowercase`: the result depends on the characters alone.
#[verifier::external_body]
fn lowercase(s: &str) -> (r: String)
    ensures
        r@ == lower_of(s@),
{
    s.to_lowercase()
}

/// Decides whether `line` contains `search`, exactly or, when not
/// `case_sensitive`, after lowercasing both. An empty `search` matches.
pub fn has_match(line: &str, search: &str, case_sensitive: bool) -> (r: bool)
    ensures
        r == line_matches(line@, search@, case_sensitive),
{
    if case_sensitive {
        str_contains(line, search)
    } else {
        let lower_line = lowercase(line);
        let lower_search = lowercase(search);
        str_contains(lower_line.as_str(), lower_search.as_str())
    }
}

/// Replaces every occurrence of `search` in `line` by `replace`. When not
/// `case_sensitive`, the result is built from the lowercased line.
pub fn replace_match(line: &str, search: &str, replace: &str, case_sensitive: bool) -> (r: String)
    ensures
        r@ == transformed(line@, search@, replace@, case_sensitive),
{
    if case_sensitive {
        str_replace(line, search, replace)
    } else {
        let lower_line = lowercase(line);
        let lower_search = lowercase(search);
        str_replace(lower_line.as_str(), lower_search.as_str(), replace)
    }
}

/// In case-sensitive mode a line matches a non-empty search term exactly when
/// the term is a literal substring of the line.
pub proof fn lemma_sensitive_match_is_substring(line: Seq<char>, search: Seq<char>)
    requires
        search.len() > 0,
    ensures
        line_matches(line, search, true) <==> (exists|i: int|
            0 <= i && i + search.len() <= line.len() && #[trigger] line.subrange(i, i + search.len())
                == search),
{
    if line_matches(line, search, true) {
        let i = choose|i: int| occurs_at(line, search, i);
        assert(line.subrange(i, i + search.len()) == search);
    }
    if exists|i: int|
        0 <= i && i + search.len() <= line.len() && #[trigger] line.subrange(i, i + search.len())
            == search {
        let i = choose|i: int|
            0 <= i && i + search.len() <= line.len() && #[trigger] line.subrange(i, i + search.len())
                == search;
        assert(occurs_at(line, search, i));
    }
}

/// Case-insensitive matching is case-sensitive matching of the lowercased
/// line against the lowercased search term.
pub proof fn lemma_insensitive_match_is_lowered(line: Seq<char>, search: Seq<char>)
    ensures
        line_matches(line, search, false) == line_matches(lower_of(line), lower_of(search), true),
{
}

/// Replacing a term that does not occur in a line leaves the line unchanged.
pub proof fn lemma_replace_absent(s: Seq<char>, pat: Seq<char>, rep: Seq<char>)
    requires
        !occurs_in(s, pat),
    ensures
        replaced(s, pat, rep) == s,
    decreases s.len(),
{
    assert(pat.len() > 0) by {
        if pat.len() == 0 {
            assert(s.subrange(0, 0) =~= pat);
            assert(occurs_at(s, pat, 0));
        }
    }
    if s.len() >= pat.len() {
        assert(!occurs_at(s, pat, 0));
        let rest = s.drop_first();
        assert forall|i: int| !occurs_at(rest, pat, i) by {
            if occurs_at(rest, pat, i) {
                assert(s.subrange(i + 1, i + 1 + pat.len()) =~= rest.subrange(i, i + pat.len()));
                assert(occurs_at(s, pat, i + 1));
            }
        }
        lemma_replace_absent(rest, pat, rep);
        assert(seq![s[0]] + rest =~= s);
    }
}

/// Replacing a term by itself leaves the line unchanged.
pub proof fn lemma_replace_with_itself(s: Seq<char>, pat: Seq<char>)
    ensures
        replaced(s, pat, pat) == s,
    decreases s.len(),
{
    if pat.len() == 0 {
        if s.len() == 0 {
            assert(pat =~= s);
        } else {
            lemma_replace_with_itself(s.drop_first(), pat);
            assert(pat + seq![s[0]] + s.drop_first() =~= s);
        }
    } else if s.len() < pat.len() {
    } else if s.subrange(0, pat.len() as int) == pat {
        let rest = s.subrange(pat.len() as int, s.len() as int);
        lemma_replace_with_itself(rest, pat);
        assert(pat + rest =~= s);
    } else {
        lemma_replace_with_itself(s.drop_first(), pat);
        assert(seq![s[0]] + s.drop_first() =~= s);
    }
}

} // verus!
