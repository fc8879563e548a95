//! Commit and blame records as read from git.

use vstd::prelude::*;
use crate::text::{chars_of, seq_eq, string_of, slice_of, take_chars};

verus! {

#[derive(Debug, Clone)]
pub struct CommitInfo {
    pub sha: String,
    pub short_sha: String,
    pub author: String,
    pub email: String,
    pub timestamp: i64,
    pub summary: String,
    pub message: String,
}

#[derive(Debug, Clone)]
pub struct BlameLine {
    pub line: usize,
    pub sha: String,
    pub short_sha: String,
    pub summary: String,
    pub author: String,
}

/// The abbreviated form of a commit id: its first seven characters.
pub fn short(sha: &str) -> (res: String)
    ensures
        res@ == take_chars(sha@, 7),
{
    let v = chars_of(sha);
    if v.len() <= 7 {
        string_of(&v)
    } else {
        string_of(&slice_of(&v, 0, 7))
    }
}

/// An optional text, or `default` when absent.
pub open spec fn or_default(o: Option<Seq<char>>, default: Seq<char>) -> Seq<char> {
    match o {
        Some(s) => s,
        None => default,
    }
}

pub open spec fn opt_str(o: Option<&str>) -> Option<Seq<char>> {
    match o {
        Some(s) => Some(s@),
        None => None,
    }
}

fn text_or(o: Option<&str>, default: &str) -> (res: String)
    ensures
        res@ == or_default(opt_str(o), default@),
{
    match o {
        Some(s) => s.to_owned(),
        None => default.to_owned(),
    }
}

/// The record of a commit as read from git: a missing author name reads
/// `(unknown)`, a missing e-mail, summary or message reads empty.
pub fn commit_info(
    sha: &str,
    author: Option<&str>,
    email: Option<&str>,
    timestamp: i64,
    summary: Option<&str>,
    message: Option<&str>,
) -> (res: CommitInfo)
    ensures
        res.sha@ == sha@,
        res.short_sha@ == take_chars(sha@, 7),
        res.author@ == or_default(opt_str(author), "(unknown)"@),
        res.email@ == or_default(opt_str(email), Seq::empty()),
        res.timestamp == timestamp,
        res.summary@ == or_default(opt_str(summary), Seq::empty()),
        res.message@ == or_default(opt_str(message), Seq::empty()),
{
    proof {
        reveal_strlit("");
    }
    CommitInfo {
        sha: sha.to_owned(),
        short_sha: short(sha),
        author: text_or(author, "(unknown)"),
        email: text_or(email, ""),
        timestamp,
        summary: text_or(summary, ""),
        message: text_or(message, ""),
    }
}

/// The blame record of line `line`, last changed by commit `sha`.
pub fn blame_line(line: usize, sha: &str, summary: Option<&str>, author: Option<&str>) -> (res:
    BlameLine)
    ensures
        res.line == line,
        res.sha@ == sha@,
        res.short_sha@ == take_chars(sha@, 7),
        res.summary@ == or_default(opt_str(summary), Seq::empty()),
        res.author@ == or_default(opt_str(author), "(unknown)"@),
{
    proof {
        reveal_strlit("");
    }
    BlameLine {
        line,
        sha: sha.to_owned(),
        short_sha: short(sha),
        summary: text_or(summary, ""),
        author: text_or(author, "(unknown)"),
    }
}

/// Index of the first change (old path, new path) that moves `path`.
pub open spec fn first_move(deltas: Seq<(String, String)>, path: Seq<char>, i: int) -> Option<int>
    decreases deltas.len() - i,
{
    if i < 0 || i >= deltas.len() {
        None
    } else if deltas[i].0@ == path {
        Some(i)
    } else {
        first_move(deltas, path, i + 1)
    }
}

/// Where the changes of one commit (pairs of old and new path, in the
/// order git lists them) moved `path`: the new path of the first change
/// from it.
pub fn follow_rename(deltas: &Vec<(String, String)>, path: &str) -> (res: Option<String>)
    ensures
        match first_move(deltas@, path@, 0) {
            Some(i) => res matches Some(p) && p@ == deltas@[i].1@,
            None => res is None,
        },
{
    let want = chars_of(path);
    let mut i: usize = 0;
    while i < deltas.len()
        invariant
            i <= deltas@.len(),
            want@ == path@,
            first_move(deltas@, path@, 0) == first_move(deltas@, path@, i as int),
        decreases deltas.len() - i,
    {
        if seq_eq(&chars_of(deltas[i].0.as_str()), &want) {
            return Some(deltas[i].1.clone());
        }
        i = i + 1;
    }
    None
}

} // verus!
