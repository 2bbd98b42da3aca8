//! The workspace-to-directory resolver and the quick-window map: parsing of
//! the simple `key: value` mapping files, lookup, and tilde expansion.
//!
//! A mapping file holds one `key: value` pair per line, the key and value
//! separated by the first `": "` of the line; lines without a separator are
//! ignored.  When one key occurs twice, the later line wins.

use vstd::prelude::*;
use crate::strings::{spec_split, split_char, str_eq};

verus! {

/// The index of the first `": "` separator of a line, or a negative value
/// when the line holds none.
pub open spec fn spec_line_sep(line: Seq<char>) -> int
    decreases line.len(),
{
    if line.len() < 2 {
        -1
    } else if line[0] == ':' && line[1] == ' ' {
        0
    } else {
        let rest = spec_line_sep(line.drop_first());
        if rest < 0 {
            -1
        } else {
            1 + rest
        }
    }
}

/// The `(key, value)` entry of one line: the segments before and after its
/// first `": "`, or `None` for a line without the separator.
pub open spec fn spec_line_entry(line: Seq<char>) -> Option<(Seq<char>, Seq<char>)> {
    let i = spec_line_sep(line);
    if i < 0 {
        None
    } else {
        Some((line.subrange(0, i), line.subrange(i + 2, line.len() as int)))
    }
}

/// The entries of a line list, in order, lines without a separator skipped.
pub open spec fn spec_entries(lines: Seq<Seq<char>>) -> Seq<(Seq<char>, Seq<char>)>
    decreases lines.len(),
{
    if lines.len() == 0 {
        Seq::empty()
    } else {
        spec_entries(lines.drop_last()) + (match spec_line_entry(lines.last()) {
            Some(e) => seq![e],
            None => Seq::empty(),
        })
    }
}

/// The ordered key/value pairs parsed from a mapping file's text: one
/// entry per line holding a `": "` separator, in file order.  The empty
/// string has one (empty) line; a trailing newline yields a final empty
/// line; neither parses to an entry.
pub open spec fn spec_parse_mapping(text: Seq<char>) -> Seq<(Seq<char>, Seq<char>)> {
    spec_entries(spec_split(text, '\n'))
}

/// The views of a pair list.
pub open spec fn pairs_view(s: Seq<(String, String)>) -> Seq<(Seq<char>, Seq<char>)> {
    s.map_values(|p: (String, String)| (p.0@, p.1@))
}

/// The value of the last pair whose key is `key`, or `None` when no pair
/// has it (a later line overrides an earlier one).
pub open spec fn spec_lookup(pairs: Seq<(Seq<char>, Seq<char>)>, key: Seq<char>) -> Option<
    Seq<char>,
>
    decreases pairs.len(),
{
    if pairs.len() == 0 {
        None
    } else if pairs.last().0 == key {
        Some(pairs.last().1)
    } else {
        spec_lookup(pairs.drop_last(), key)
    }
}

/// A leading tilde expanded against a home directory: `"~"` alone becomes
/// `home`, `"~/rest"` becomes `home` followed by `"/rest"`, and anything
/// else (including `"~user"` forms) is returned unchanged.
pub open spec fn spec_expand_tilde(path: Seq<char>, home: Seq<char>) -> Seq<char> {
    if path == seq!['~'] {
        home
    } else if path.len() >= 2 && path[0] == '~' && path[1] == '/' {
        home + path.drop_first()
    } else {
        path
    }
}

/// The directory for a focused workspace: its mapped value with a leading
/// tilde expanded, or the home directory itself when the workspace has no
/// entry (the soft fallback).
pub open spec fn spec_resolve(
    pairs: Seq<(Seq<char>, Seq<char>)>,
    workspace: Seq<char>,
    home: Seq<char>,
) -> Seq<char> {
    match spec_lookup(pairs, workspace) {
        Some(v) => spec_expand_tilde(v, home),
        None => home,
    }
}

proof fn lemma_line_sep_at(line: Seq<char>, i: int)
    requires
        0 <= i,
        i + 1 < line.len(),
        line[i] == ':',
        line[i + 1] == ' ',
        forall|j: int| 0 <= j < i ==> !((#[trigger] line[j]) == ':' && line[j + 1] == ' '),
    ensures
        spec_line_sep(line) == i,
    decreases line.len(),
{
    if i > 0 {
        let rest = line.drop_first();
        assert(forall|j: int|
            0 <= j < i - 1 ==> (#[trigger] rest[j]) == line[j + 1] && rest[j + 1] == line[j
                + 2]);
        assert(rest[i - 1] == ':' && rest[i] == ' ');
        lemma_line_sep_at(rest, i - 1);
    }
}

proof fn lemma_line_sep_none(line: Seq<char>)
    requires
        forall|j: int| 0 <= j && j + 1 < line.len() ==> !((#[trigger] line[j]) == ':' && line[j + 1] == ' '),
    ensures
        spec_line_sep(line) < 0,
    decreases line.len(),
{
    if line.len() >= 2 {
        let rest = line.drop_first();
        assert(forall|j: int|
            0 <= j && j + 1 < rest.len() ==> (#[trigger] rest[j]) == line[j + 1] && rest[j
                + 1] == line[j + 2]);
        lemma_line_sep_none(rest);
    }
}

/// Parses one line into its `(key, value)` entry, or `None` for a line
/// without the `": "` separator.
fn parse_line(line: &str) -> (r: Option<(String, String)>)
    ensures
        match r {
            Some(kv) => spec_line_entry(line@) == Some((kv.0@, kv.1@)),
            None => spec_line_entry(line@) is None,
        },
{
    let n = line.unicode_len();
    let mut i: usize = 0;
    while i + 1 < n
        invariant
            i + 1 <= n || i == 0,
            n == line@.len(),
            forall|j: int| 0 <= j < i ==> !((#[trigger] line@[j]) == ':' && line@[j + 1] == ' '),
        decreases n - i,
    {
        if line.get_char(i) == ':' && line.get_char(i + 1) == ' ' {
            proof {
                lemma_line_sep_at(line@, i as int);
            }
            let key = line.substring_char(0, i).to_owned();
            let value = line.substring_char(i + 2, n).to_owned();
            return Some((key, value));
        }
        i += 1;
    }
    proof {
        lemma_line_sep_none(line@);
    }
    None
}

/// Parses a mapping file's text into its ordered key/value pairs.
pub fn parse_mapping(text: &str) -> (r: Vec<(String, String)>)
    ensures
        pairs_view(r@) == spec_parse_mapping(text@),
{
    let lines = split_char(text, '\n');
    let ghost all: Seq<Seq<char>> = lines@.map_values(|x: String| x@);
    let mut pairs: Vec<(String, String)> = Vec::new();
    proof {
        assert(all.subrange(0, 0) =~= Seq::<Seq<char>>::empty());
        assert(pairs_view(pairs@) =~= spec_entries(all.subrange(0, 0)));
    }
    for i in 0..lines.len()
        invariant
            all == lines@.map_values(|x: String| x@),
            all == spec_split(text@, '\n'),
            pairs_view(pairs@) == spec_entries(all.subrange(0, i as int)),
        decreases lines.len() - i,
    {
        if let Some(kv) = parse_line(lines[i].as_str()) {
            pairs.push(kv);
        }
        proof {
            let next = all.subrange(0, i + 1);
            assert(next.drop_last() =~= all.subrange(0, i as int));
            assert(next.last() == lines@[i as int]@);
            assert(pairs_view(pairs@) =~= spec_entries(next));
        }
    }
    proof {
        assert(all.subrange(0, all.len() as int) =~= all);
    }
    pairs
}

/// Looks a key up in the parsed pairs; the last matching line wins.
pub fn lookup(pairs: &Vec<(String, String)>, key: &str) -> (r: Option<String>)
    ensures
        match r {
            Some(v) => spec_lookup(pairs_view(pairs@), key@) == Some(v@),
            None => spec_lookup(pairs_view(pairs@), key@) is None,
        },
{
    let mut found: Option<String> = None;
    proof {
        assert(pairs_view(pairs@.subrange(0, 0)) =~= Seq::<(Seq<char>, Seq<char>)>::empty());
    }
    for j in 0..pairs.len()
        invariant
            match found {
                Some(v) => spec_lookup(pairs_view(pairs@.subrange(0, j as int)), key@) == Some(
                    v@,
                ),
                None => spec_lookup(pairs_view(pairs@.subrange(0, j as int)), key@) is None,
            },
        decreases pairs.len() - j,
    {
        if str_eq(pairs[j].0.as_str(), key) {
            found = Some(pairs[j].1.clone());
        }
        proof {
            let pv = pairs_view(pairs@.subrange(0, j + 1));
            assert(pv.drop_last() =~= pairs_view(pairs@.subrange(0, j as int)));
            assert(pv.last() == (pairs@[j as int].0@, pairs@[j as int].1@));
        }
    }
    proof {
        assert(pairs@.subrange(0, pairs@.len() as int) =~= pairs@);
    }
    found
}

/// Expands a leading tilde against the given home directory, exactly as
/// `spec_expand_tilde` describes.
pub fn expand_tilde(path: &str, home: &str) -> (r: String)
    ensures
        r@ == spec_expand_tilde(path@, home@),
{
    let n = path.unicode_len();
    if n == 1 && path.get_char(0) == '~' {
        proof {
            assert(path@ =~= seq!['~']);
        }
        home.to_owned()
    } else if n >= 2 && path.get_char(0) == '~' && path.get_char(1) == '/' {
        proof {
            assert(path@ != seq!['~']);
        }
        let mut s = home.to_owned();
        let after = path.substring_char(1, n);
        proof {
            assert(after@ =~= path@.drop_first());
        }
        s.append(after);
        s
    } else {
        proof {
            if path@ == seq!['~'] {
                assert(path@.len() == 1 && path@[0] == '~');
                assert(false);
            }
        }
        path.to_owned()
    }
}

/// Relies on `shellexpand::tilde`: called on `"~"` it returns the invoking
/// user's home directory, or `"~"` unchanged when no home directory can be
/// determined.  The result depends on the process environment, so nothing
/// is promised of it.
#[verifier::external_body]
fn home_directory() -> String {
    shellexpand::tilde("~").to_string()
}

/// Resolves a focused workspace to its directory against the parsed pairs,
/// with the given home directory as the expansion base and the fallback.
pub fn resolve(pairs: &Vec<(String, String)>, workspace: &str, home: &str) -> (r: String)
    ensures
        r@ == spec_resolve(pairs_view(pairs@), workspace@, home@),
{
    match lookup(pairs, workspace) {
        Some(v) => expand_tilde(v.as_str(), home),
        None => home.to_owned(),
    }
}

/// Resolves a focused workspace to its directory, with the home directory
/// the environment reports as the expansion base and the fallback.
pub fn resolve_from_home(pairs: &Vec<(String, String)>, workspace: &str) -> (r: String)
    ensures
        exists|home: Seq<char>| r@ == spec_resolve(pairs_view(pairs@), workspace@, home),
{
    let home = home_directory();
    let r = resolve(pairs, workspace, home.as_str());
    proof {
        assert(r@ == spec_resolve(pairs_view(pairs@), workspace@, home@));
    }
    r
}

} // verus!
