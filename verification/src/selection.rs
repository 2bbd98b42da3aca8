//! The selection bridge: serialising candidate labels for the external
//! prompt and parsing the line it hands back into an identifier.
//!
//! The prompt itself is a child process and lives outside this crate; the
//! functions here only prepare its input and interpret its output.

use vstd::prelude::*;
use crate::strings::{find_char, spec_find};
use crate::tree::Candidate;

verus! {

/// The labels of a candidate list, in order.
pub open spec fn spec_labels(cands: Seq<Candidate>) -> Seq<Seq<char>> {
    cands.map_values(|c: Candidate| c.label@)
}

/// Lines joined by a single newline, with no trailing newline.
pub open spec fn spec_join_lines(lines: Seq<Seq<char>>) -> Seq<char>
    decreases lines,
{
    if lines.len() == 0 {
        Seq::empty()
    } else if lines.len() == 1 {
        lines[0]
    } else {
        spec_join_lines(lines.drop_last()) + seq!['\n'] + lines.last()
    }
}

/// The chosen line of the prompt's raw output: the output with one trailing
/// newline removed, if there is one.
pub open spec fn spec_chosen_line(raw: Seq<char>) -> Seq<char> {
    if raw.len() > 0 && raw.last() == '\n' {
        raw.drop_last()
    } else {
        raw
    }
}

/// The identifier parsed from a chosen line: the non-empty segment before
/// the first `':'`.  `None` when the line has no `':'` (a malformed label)
/// or when the segment is empty (which includes a cancelled, empty
/// selection): callers must treat `None` as "abort the action".
pub open spec fn spec_selection_id(line: Seq<char>) -> Option<Seq<char>> {
    let i = spec_find(line, ':');
    if i <= 0 {
        None
    } else {
        Some(line.subrange(0, i))
    }
}

/// Copies the display labels out of a candidate list, in order.
pub fn candidate_labels(cands: &Vec<Candidate>) -> (r: Vec<String>)
    ensures
        r@.map_values(|s: String| s@) == spec_labels(cands@),
{
    let mut out: Vec<String> = Vec::new();
    for i in 0..cands.len()
        invariant
            out@.len() == i as int,
            forall|j: int| 0 <= j < i ==> out@[j]@ == cands@[j].label@,
        decreases cands.len() - i,
    {
        out.push(cands[i].label.clone());
    }
    proof {
        assert(out@.map_values(|s: String| s@) =~= spec_labels(cands@));
    }
    out
}

/// Joins the lines with single newlines: the full input handed to the
/// external prompt.  An empty list yields the empty string, which callers
/// must treat as "nothing to select".
pub fn join_lines(lines: &Vec<String>) -> (r: String)
    ensures
        r@ == spec_join_lines(lines@.map_values(|s: String| s@)),
{
    let mut out = String::new();
    proof {
        assert(lines@.subrange(0, 0).map_values(|s: String| s@)
            =~= Seq::<Seq<char>>::empty());
    }
    for i in 0..lines.len()
        invariant
            out@ == spec_join_lines(lines@.subrange(0, i as int).map_values(|s: String| s@)),
        decreases lines.len() - i,
    {
        if i > 0 {
            out.append("\n");
        }
        out.append(lines[i].as_str());
        proof {
            reveal_strlit("\n");
            let all = lines@.map_values(|s: String| s@);
            let next = lines@.subrange(0, i + 1).map_values(|s: String| s@);
            assert(next.drop_last() =~= lines@.subrange(0, i as int).map_values(
                |s: String| s@,
            ));
            assert(next.last() == lines@[i as int]@);
            if i == 0 {
                assert(out@ =~= next[0]);
                assert(next.len() == 1);
            } else {
                assert("\n"@ =~= seq!['\n']);
                assert(out@ =~= spec_join_lines(next.drop_last()) + seq!['\n'] + next.last());
            }
        }
    }
    proof {
        assert(lines@.subrange(0, lines@.len() as int) =~= lines@);
    }
    out
}

/// Returns the chosen line verbatim: the prompt's raw output with one
/// trailing newline removed.  Used when the label itself (for instance a
/// workspace name) is the needed value.
pub fn bemenu_get_selection(raw: &str) -> (r: String)
    ensures
        r@ == spec_chosen_line(raw@),
{
    let n = raw.unicode_len();
    if n > 0 && raw.get_char(n - 1) == '\n' {
        let line = raw.substring_char(0, n - 1);
        proof {
            assert(raw@.subrange(0, n - 1) =~= raw@.drop_last());
        }
        line.to_owned()
    } else {
        raw.to_owned()
    }
}

/// Parses the identifier out of the prompt's raw output: the non-empty
/// segment of the chosen line before its first `':'`.  Returns `None` for a
/// cancelled (empty) selection, a line with no `':'`, or an empty
/// identifier segment; callers must abort the action then.
pub fn bemenu_get_selection_id(raw: &str) -> (r: Option<String>)
    ensures
        ({
            let line = spec_chosen_line(raw@);
            match r {
                Some(id) => spec_selection_id(line) == Some(id@),
                None => spec_selection_id(line) is None,
            }
        }),
{
    let line: String = bemenu_get_selection(raw);
    match find_char(line.as_str(), ':') {
        Some(i) => {
            if i == 0 {
                None
            } else {
                let id = line.as_str().substring_char(0, i);
                Some(id.to_owned())
            }
        },
        None => None,
    }
}

} // verus!
