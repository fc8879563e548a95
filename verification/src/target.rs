//! Line targets given on the command line: `path:line` or
//! `path:start-end`.

use vstd::prelude::*;
use crate::config::{debug_quoted, debug_string};
use crate::number::{decimal, parse_usize, parse_usize_spec, push_usize};
use crate::text::{chars_of, find_char, find_char_from, lemma_find_char_from, push_str, slice_of, string_of};
use crate::{Error, Result};

verus! {

/// Index of the last `c` in `s`, if any.
pub open spec fn last_index_of(s: Seq<char>, c: char, n: int) -> Option<int>
    decreases n,
{
    if n <= 0 {
        None
    } else if s[n - 1] == c {
        Some(n - 1)
    } else {
        last_index_of(s, c, n - 1)
    }
}

/// A checked range: the start is at least 1 and the end not before it.
pub open spec fn checked_range(path: Seq<char>, start: usize, end: usize) -> core::result::Result<
    (Seq<char>, usize, usize),
    Seq<char>,
> {
    if start == 0 || end < start {
        Err("invalid line range "@ + decimal(start as nat) + ".."@ + decimal(end as nat))
    } else {
        Ok((path, start, end))
    }
}

/// What `path:line` or `path:start-end` names: the path before the last
/// `:`, and the line range after it (split at its first `-`); the message
/// of the error otherwise.
pub open spec fn target_spec(s: Seq<char>) -> core::result::Result<(Seq<char>, usize, usize), Seq<char>> {
    match last_index_of(s, ':', s.len() as int) {
        None => Err(
            "expected `<path>:<line>` or `<path>:<start>-<end>` but got `"@ + s + "`"@,
        ),
        Some(k) => {
            let path = s.take(k);
            let range = s.skip(k + 1);
            let d = find_char_from(range, '-', 0);
            if d < range.len() {
                match parse_usize_spec(range.take(d)) {
                    None => Err("parsing start line in "@ + debug_quoted(s)),
                    Some(a) => match parse_usize_spec(range.skip(d + 1)) {
                        None => Err("parsing end line in "@ + debug_quoted(s)),
                        Some(b) => checked_range(path, a, b),
                    },
                }
            } else {
                match parse_usize_spec(range) {
                    None => Err("parsing line number in "@ + debug_quoted(s)),
                    Some(n) => checked_range(path, n, n),
                }
            }
        },
    }
}

fn other(head: &str, s: &str) -> (res: Error)
    ensures
        res matches Error::Other(m) && m@ == head@ + debug_quoted(s@),
{
    let mut m = head.to_owned();
    push_str(&mut m, debug_string(s).as_str());
    Error::Other(m)
}

fn check_range(path: &Vec<char>, start: usize, end: usize) -> (res: Result<(String, usize, usize)>)
    ensures
        match res {
            Ok((p, a, b)) => checked_range(path@, start, end) == core::result::Result::<
                (Seq<char>, usize, usize),
                Seq<char>,
            >::Ok((p@, a, b)),
            Err(e) => checked_range(path@, start, end) matches Err(m) && e matches Error::Other(x) && x@
                == m,
        },
{
    if start == 0 || end < start {
        let mut m = "invalid line range ".to_owned();
        push_usize(&mut m, start);
        push_str(&mut m, "..");
        push_usize(&mut m, end);
        return Err(Error::Other(m));
    }
    Ok((string_of(path), start, end))
}

/// Parses a target `path:line` or `path:start-end`.
pub fn parse_target(s: &str) -> (res: Result<(String, usize, usize)>)
    ensures
        match res {
            Ok((p, a, b)) => target_spec(s@) == core::result::Result::<
                (Seq<char>, usize, usize),
                Seq<char>,
            >::Ok((p@, a, b)),
            Err(e) => target_spec(s@) matches Err(m) && e matches Error::Other(x) && x@ == m,
        },
{
    let v = chars_of(s);
    let mut k = v.len();
    while k > 0 && v[k - 1] != ':'
        invariant
            k <= v@.len(),
            last_index_of(v@, ':', v@.len() as int) == last_index_of(v@, ':', k as int),
        decreases k,
    {
        k = k - 1;
    }
    if k == 0 {
        let mut m = "expected `<path>:<line>` or `<path>:<start>-<end>` but got `".to_owned();
        push_str(&mut m, s);
        push_str(&mut m, "`");
        return Err(Error::Other(m));
    }
    let colon = k - 1;
    let path = slice_of(&v, 0, colon);
    let range = slice_of(&v, colon + 1, v.len());
    assert(path@ =~= s@.take(colon as int));
    assert(range@ =~= s@.skip(colon + 1));
    let d = find_char(&range, '-', 0);
    proof {
        lemma_find_char_from(range@, '-', 0);
    }
    if d < range.len() {
        let a = slice_of(&range, 0, d);
        let b = slice_of(&range, d + 1, range.len());
        assert(a@ =~= range@.take(d as int));
        assert(b@ =~= range@.skip(d + 1));
        let start = match parse_usize(&a) {
            Some(x) => x,
            None => return Err(other("parsing start line in ", s)),
        };
        let end = match parse_usize(&b) {
            Some(y) => y,
            None => return Err(other("parsing end line in ", s)),
        };
        check_range(&path, start, end)
    } else {
        let n = match parse_usize(&range) {
            Some(n) => n,
            None => return Err(other("parsing line number in ", s)),
        };
        check_range(&path, n, n)
    }
}

} // verus!
