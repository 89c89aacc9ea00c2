use vstd::prelude::*;

use crate::text::{
    has_match, lemma_replace_absent, lemma_replace_with_itself, line_matches, occurs_in,
    replace_match, replaced, transformed,
};

verus! {

/// The line written for `line`: the transformed line when it matches,
/// the line itself otherwise.
pub open spec fn output_line(
    line: Seq<char>,
    search: Seq<char>,
    rep: Seq<char>,
    case_sensitive: bool,
) -> Seq<char> {
    if line_matches(line, search, case_sensitive) {
        transformed(line, search, rep, case_sensitive)
    } else {
        line
    }
}

/// How many of `lines` match `search`.
pub open spec fn count_matching(lines: Seq<String>, search: Seq<char>, case_sensitive: bool) -> nat
    decreases lines.len(),
{
    if lines.len() == 0 {
        0
    } else {
        count_matching(lines.drop_last(), search, case_sensitive) + if line_matches(
            lines.last()@,
            search,
            case_sensitive,
        ) {
            1nat
        } else {
            0nat
        }
    }
}

/// Counters of one pass: lines processed, and lines that matched.
pub struct Tally {
    pub total: usize,
    pub changed: usize,
}

impl Tally {
    /// No more lines have changed than have been processed.
    pub open spec fn wf(&self) -> bool {
        self.changed <= self.total
    }

    /// Counters before any line.
    pub fn new() -> (t: Tally)
        ensures
            t.total == 0,
            t.changed == 0,
            t.wf(),
    {
        Tally { total: 0, changed: 0 }
    }

    /// Processes one line: returns the line to write and counts it, as changed
    /// when it matches. A line counts as changed when it matches, whether or not
    /// the replacement alters its text.
    pub fn record(&mut self, line: &str, search: &str, replace: &str, case_sensitive: bool) -> (out:
        String)
        requires
            old(self).wf(),
            old(self).total < usize::MAX,
        ensures
            final(self).wf(),
            out@ == output_line(line@, search@, replace@, case_sensitive),
            final(self).total == old(self).total + 1,
            final(self).changed == old(self).changed + if line_matches(
                line@,
                search@,
                case_sensitive,
            ) {
                1int
            } else {
                0int
            },
    {
        let out = if has_match(line, search, case_sensitive) {
            self.changed = self.changed + 1;
            replace_match(line, search, replace, case_sensitive)
        } else {
            line.to_owned()
        };
        self.total = self.total + 1;
        out
    }
}

/// Runs the whole pass over `lines`: one output line per input line, in order,
/// with the counters of the pass.
pub fn process_lines(lines: &Vec<String>, search: &str, replace: &str, case_sensitive: bool) -> (res:
    (Vec<String>, Tally))
    ensures
        res.0.len() == lines.len(),
        forall|i: int|
            0 <= i < lines.len() ==> (#[trigger] res.0[i])@ == output_line(
                lines[i]@,
                search@,
                replace@,
                case_sensitive,
            ),
        res.1.total == lines.len(),
        res.1.changed == count_matching(lines@, search@, case_sensitive),
        res.1.changed <= res.1.total,
{
    let mut out: Vec<String> = Vec::new();
    let mut tally = Tally::new();
    let mut i: usize = 0;
    while i < lines.len()
        invariant
            i <= lines.len(),
            out.len() == i,
            tally.wf(),
            tally.total == i,
            tally.changed == count_matching(lines@.take(i as int), search@, case_sensitive),
            forall|j: int|
                0 <= j < i ==> (#[trigger] out[j])@ == output_line(
                    lines[j]@,
                    search@,
                    replace@,
                    case_sensitive,
                ),
        decreases lines.len() - i,
    {
        let line = tally.record(lines[i].as_str(), search, replace, case_sensitive);
        out.push(line);
        proof {
            assert(lines@.take(i + 1).drop_last() =~= lines@.take(i as int));
        }
        i = i + 1;
    }
    proof {
        assert(lines@.take(i as int) =~= lines@);
    }
    (out, tally)
}

/// However many lines a pass reads, it counts at most that many as changed.
pub proof fn lemma_changed_at_most_total(lines: Seq<String>, search: Seq<char>, case_sensitive: bool)
    ensures
        count_matching(lines, search, case_sensitive) <= lines.len(),
    decreases lines.len(),
{
    if lines.len() > 0 {
        lemma_changed_at_most_total(lines.drop_last(), search, case_sensitive);
    }
}

/// In case-sensitive mode a line that does not hold the search term is written
/// unchanged and is not counted as changed.
pub proof fn lemma_absent_line_passes_through(line: Seq<char>, search: Seq<char>, rep: Seq<char>)
    requires
        !occurs_in(line, search),
    ensures
        !line_matches(line, search, true),
        output_line(line, search, rep, true) == line,
        replaced(line, search, rep) == line,
{
    lemma_replace_absent(line, search, rep);
}

/// In case-sensitive mode, replacing the search term by itself writes every
/// line unchanged. A line that holds the term still counts as changed, since
/// `count_matching` counts matches, not altered text.
pub proof fn lemma_replace_by_itself_keeps_lines(lines: Seq<String>, search: Seq<char>)
    ensures
        forall|i: int|
            0 <= i < lines.len() ==> output_line(#[trigger] lines[i]@, search, search, true)
                == lines[i]@,
{
    assert forall|i: int| 0 <= i < lines.len() implies output_line(
        #[trigger] lines[i]@,
        search,
        search,
        true,
    ) == lines[i]@ by {
        lemma_replace_with_itself(lines[i]@, search);
    }
}

} // verus!
