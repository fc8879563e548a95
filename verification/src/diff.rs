//! Unified-diff parser focused on what tripwire checking needs: for each
//! affected file, the line ranges that have been removed in the OLD file.
//!
//! Format target: standard unified diff (`@@ -a,b +c,d @@`).

use vstd::prelude::*;
use crate::number::{parse_usize, parse_usize_spec};
use crate::text::{
    chars_of, drop_first_char, starts_with_str, find_char, find_char_from, find_from, find_seq, find_str, lemma_find_char_from,
    lemma_find_from_bounds, lines, push_chars, push_str, slice_of, split_lines, split_whitespace,
    string_of, strip_prefix_str, trim, trim_seq, views, words,
};
use crate::{Error, Result};

verus! {

#[derive(Debug, Clone, PartialEq, Eq)]
pub struct FileDiff {
    pub old_path: String,
    pub new_path: String,
    pub hunks: Vec<Hunk>,
}

#[derive(Debug, Clone, PartialEq, Eq)]
pub struct Hunk {
    pub old_start: usize,
    pub old_count: usize,
    pub new_start: usize,
    pub new_count: usize,
    pub lines: Vec<HunkLine>,
}

#[derive(Debug, Clone, PartialEq, Eq)]
pub enum HunkLine {
    Context(String),
    Removed(String),
    Added(String),
}

/// Abstract hunk line: its kind and text.
pub enum LineModel {
    Context(Seq<char>),
    Removed(Seq<char>),
    Added(Seq<char>),
}

/// Abstract hunk.
#[verifier::ext_equal]
pub struct HunkModel {
    pub old_start: usize,
    pub old_count: usize,
    pub new_start: usize,
    pub new_count: usize,
    pub lines: Seq<LineModel>,
}

/// Abstract file diff.
#[verifier::ext_equal]
pub struct FileDiffModel {
    pub old_path: Seq<char>,
    pub new_path: Seq<char>,
    pub hunks: Seq<HunkModel>,
}

impl View for HunkLine {
    type V = LineModel;

    open spec fn view(&self) -> LineModel {
        match self {
            HunkLine::Context(s) => LineModel::Context(s@),
            HunkLine::Removed(s) => LineModel::Removed(s@),
            HunkLine::Added(s) => LineModel::Added(s@),
        }
    }
}

impl View for Hunk {
    type V = HunkModel;

    open spec fn view(&self) -> HunkModel {
        HunkModel {
            old_start: self.old_start,
            old_count: self.old_count,
            new_start: self.new_start,
            new_count: self.new_count,
            lines: self.lines@.map_values(|l: HunkLine| l@),
        }
    }
}

impl View for FileDiff {
    type V = FileDiffModel;

    open spec fn view(&self) -> FileDiffModel {
        FileDiffModel {
            old_path: self.old_path@,
            new_path: self.new_path@,
            hunks: self.hunks@.map_values(|h: Hunk| h@),
        }
    }
}

/// Views of a sequence of file diffs.
pub open spec fn file_views(v: Seq<FileDiff>) -> Seq<FileDiffModel> {
    v.map_values(|f: FileDiff| f@)
}

/// Number of lines among the first `n` that exist in the OLD file
/// (context and removed lines; added lines do not).
pub open spec fn old_lines_before(ls: Seq<LineModel>, n: int) -> int
    decreases n,
{
    if n <= 0 {
        0
    } else {
        old_lines_before(ls, n - 1) + if ls[n - 1] is Added {
            0int
        } else {
            1int
        }
    }
}

/// OLD-file line numbers of the removed lines among the first `n` lines of
/// a hunk starting at OLD line `start`, in order.
pub open spec fn removed_lines_upto(start: int, ls: Seq<LineModel>, n: int) -> Seq<int>
    decreases n,
{
    if n <= 0 {
        Seq::empty()
    } else {
        let prev = removed_lines_upto(start, ls, n - 1);
        if ls[n - 1] is Removed {
            prev.push(start + old_lines_before(ls, n - 1))
        } else {
            prev
        }
    }
}

/// OLD-file line numbers of every removed line of `h`, in order.
pub open spec fn removed_lines(h: HunkModel) -> Seq<int> {
    removed_lines_upto(h.old_start as int, h.lines, h.lines.len() as int)
}

/// The integers `a..=b`.
pub open spec fn range_seq(a: int, b: int) -> Seq<int> {
    Seq::new((b - a + 1) as nat, |k: int| a + k)
}

/// Every line number covered by the inclusive ranges, in order.
pub open spec fn expand(rs: Seq<(usize, usize)>) -> Seq<int>
    decreases rs.len(),
{
    if rs.len() == 0 {
        Seq::empty()
    } else {
        expand(rs.drop_last()) + range_seq(rs.last().0 as int, rs.last().1 as int)
    }
}

/// Inclusive ranges that are non-empty, ascending and separated by at
/// least one line: each range is a maximal run.
pub open spec fn separated_runs(rs: Seq<(usize, usize)>) -> bool {
    &&& forall|k: int| 0 <= k < rs.len() ==> (#[trigger] rs[k]).0 <= rs[k].1
    &&& forall|i: int, j: int| 0 <= i < j < rs.len() ==> #[trigger] rs[i].1 + 1 < #[trigger] rs[j].0
}

/// The closed ranges and the open run after the first `n` lines of a
/// hunk that starts at OLD line `start`: a removed line extends the open
/// run (or opens one), a context line closes it, an added line leaves it.
pub open spec fn runs_upto(start: int, ls: Seq<LineModel>, n: int) -> (
    Seq<(usize, usize)>,
    Option<(usize, usize)>,
)
    decreases n,
{
    if n <= 0 {
        (Seq::empty(), None)
    } else {
        let (out, run) = runs_upto(start, ls, n - 1);
        let line = (start + old_lines_before(ls, n - 1)) as usize;
        match ls[n - 1] {
            LineModel::Removed(_) => (
                out,
                Some(
                    match run {
                        Some((s, _)) => (s, line),
                        None => (line, line),
                    },
                ),
            ),
            LineModel::Context(_) => match run {
                Some(r) => (out.push(r), None),
                None => (out, None),
            },
            LineModel::Added(_) => (out, run),
        }
    }
}

/// What `removed_ranges` returns for `h`.
pub open spec fn removed_ranges_spec(h: HunkModel) -> Seq<(usize, usize)> {
    let (out, run) = runs_upto(h.old_start as int, h.lines, h.lines.len() as int);
    match run {
        Some(r) => out.push(r),
        None => out,
    }
}

/// Whether the OLD-line counter of `h` stays within `usize`.
pub open spec fn hunk_fits(h: HunkModel) -> bool {
    h.old_start + old_lines_before(h.lines, h.lines.len() as int) <= usize::MAX
}

proof fn lemma_old_lines_monotone(ls: Seq<LineModel>, i: int, j: int)
    requires
        0 <= i <= j,
    ensures
        old_lines_before(ls, i) <= old_lines_before(ls, j),
    decreases j,
{
    if i < j {
        lemma_old_lines_monotone(ls, i, j - 1);
    }
}

impl Hunk {
    /// Whether the OLD-line numbers of this hunk stay within `usize`
    /// (`removed_ranges` needs it).
    pub fn fits(&self) -> (res: bool)
        ensures
            res == hunk_fits(self@),
    {
        let ghost ls = self@.lines;
        let mut line: usize = self.old_start;
        let mut i: usize = 0;
        while i < self.lines.len()
            invariant
                ls == self@.lines,
                i <= self.lines.len() == ls.len(),
                line == self.old_start + old_lines_before(ls, i as int),
            decreases self.lines.len() - i,
        {
            assert(ls[i as int] == self.lines@[i as int]@);
            match &self.lines[i] {
                HunkLine::Added(_) => {},
                _ => {
                    if line == usize::MAX {
                        proof {
                            lemma_old_lines_monotone(ls, i + 1, ls.len() as int);
                        }
                        return false;
                    }
                    line = line + 1;
                },
            }
            i = i + 1;
        }
        true
    }

    /// Inclusive line ranges in the OLD file that were removed.
    /// Adjacent removed lines collapse into one range.
    pub fn removed_ranges(&self) -> (out: Vec<(usize, usize)>)
        requires
            hunk_fits(self@),
        ensures
            out@ == removed_ranges_spec(self@),
            expand(out@) == removed_lines(self@),
            separated_runs(out@),
    {
        let ghost ls = self@.lines;
        let ghost n = ls.len() as int;
        let mut out: Vec<(usize, usize)> = Vec::new();
        let mut line = self.old_start;
        let mut run: Option<(usize, usize)> = None;
        let mut i: usize = 0;
        while i < self.lines.len()
            invariant
                ls == self@.lines,
                n == ls.len(),
                n == self.lines.len(),
                i <= n,
                self.old_start + old_lines_before(ls, n) <= usize::MAX,
                line == self.old_start + old_lines_before(ls, i as int),
                (out@, run) == runs_upto(self.old_start as int, ls, i as int),
                match run {
                    Some((s, e)) => s <= e && e + 1 == line,
                    None => true,
                },
                separated_runs(out@),
                forall|k: int|
                    0 <= k < out@.len() ==> (#[trigger] out@[k]).1 + 1 < match run {
                        Some((s, e)) => s as int,
                        None => line as int,
                    },
                expand(out@) + match run {
                    Some((s, e)) => range_seq(s as int, e as int),
                    None => Seq::empty(),
                } == removed_lines_upto(self.old_start as int, ls, i as int),
            decreases n - i,
        {
            proof {
                lemma_old_lines_monotone(ls, i + 1, n);
            }
            assert(ls[i as int] == self.lines@[i as int]@);
            let ghost old_out = out@;
            match &self.lines[i] {
                HunkLine::Removed(_) => {
                    run = Some(
                        match run {
                            Some((s, _)) => {
                                assert(range_seq(s as int, line as int) =~= range_seq(
                                    s as int,
                                    line - 1,
                                ).push(line as int));
                                (s, line)
                            },
                            None => {
                                assert(range_seq(line as int, line as int) =~= seq![line as int]);
                                (line, line)
                            },
                        },
                    );
                    line = line + 1;
                },
                HunkLine::Context(_) => {
                    if let Some(r) = run {
                        out.push(r);
                        assert(out@.drop_last() =~= old_out);
                        run = None;
                    }
                    line = line + 1;
                },
                HunkLine::Added(_) => {},
            }
            i = i + 1;
        }
        if let Some(r) = run {
            let ghost old_out = out@;
            out.push(r);
            assert(out@.drop_last() =~= old_out);
        }
        proof {
            assert(expand(out@) =~= expand(out@) + Seq::<int>::empty());
        }
        out
    }
}


/// `strip_path_prefix`: trims whitespace, then drops a git `a/` or `b/`
/// prefix.
pub open spec fn strip_path_prefix_spec(s: Seq<char>) -> Seq<char> {
    let t = trim_seq(s);
    if "a/"@.is_prefix_of(t) {
        t.skip("a/"@.len() as int)
    } else if "b/"@.is_prefix_of(t) {
        t.skip("b/"@.len() as int)
    } else {
        t
    }
}

/// The part of `s` before the first `c` (all of `s` if there is none).
pub open spec fn before_char(s: Seq<char>, c: char) -> Seq<char> {
    s.take(find_char_from(s, c, 0))
}

/// `parse_range`: `start[,count[,...]]`, the count defaulting to 1. A
/// start that is not a decimal number gives the error `bad range <text>`,
/// a count that is not one gives `bad count <text>`.
pub open spec fn parse_range_spec(s: Seq<char>) -> core::result::Result<(usize, usize), Seq<char>> {
    let c = find_char_from(s, ',', 0);
    match parse_usize_spec(s.take(c)) {
        None => Err("bad range "@ + s),
        Some(start) => {
            if c >= s.len() {
                Ok((start, 1usize))
            } else {
                match parse_usize_spec(before_char(s.skip(c + 1), ',')) {
                    None => Err("bad count "@ + s),
                    Some(count) => Ok((start, count)),
                }
            }
        },
    }
}

/// The `-` and `+` ranges read from the first `n` header tokens; a later
/// token of the same sign replaces an earlier one.
pub open spec fn scan_tokens(toks: Seq<Seq<char>>, n: int) -> core::result::Result<
    (Option<(usize, usize)>, Option<(usize, usize)>),
    Seq<char>,
>
    decreases n,
{
    if n <= 0 {
        Ok((None, None))
    } else {
        match scan_tokens(toks, n - 1) {
            Err(e) => Err(e),
            Ok((old, new)) => {
                let t = toks[n - 1];
                if t.len() > 0 && t[0] == '-' {
                    match parse_range_spec(t.skip(1)) {
                        Ok(r) => Ok((Some(r), new)),
                        Err(e) => Err(e),
                    }
                } else if t.len() > 0 && t[0] == '+' {
                    match parse_range_spec(t.skip(1)) {
                        Ok(r) => Ok((old, Some(r))),
                        Err(e) => Err(e),
                    }
                } else {
                    Ok((old, new))
                }
            },
        }
    }
}

/// `parse_hunk_header` on the text after `@@ `: the tokens before ` @@`
/// must give both a `-` and a `+` range.
pub open spec fn parse_hunk_header_spec(rest: Seq<char>) -> core::result::Result<HunkModel, Seq<char>> {
    match find_seq(rest, " @@"@) {
        None => Err("malformed hunk header: "@ + rest),
        Some(end) => {
            let toks = words(rest.take(end));
            match scan_tokens(toks, toks.len() as int) {
                Err(e) => Err(e),
                Ok((old, new)) => match old {
                    None => Err("missing - range in hunk"@),
                    Some((os, oc)) => match new {
                        None => Err("missing + range in hunk"@),
                        Some((ns, nc)) => Ok(
                            HunkModel {
                                old_start: os,
                                old_count: oc,
                                new_start: ns,
                                new_count: nc,
                                lines: Seq::empty(),
                            },
                        ),
                    },
                },
            }
        },
    }
}

/// State of the line-by-line parse.
#[verifier::ext_equal]
pub struct ParseModel {
    pub files: Seq<FileDiffModel>,
    pub cur: Option<FileDiffModel>,
    pub hunk: Option<HunkModel>,
    pub old_path: Option<Seq<char>>,
}

pub open spec fn initial_parse() -> ParseModel {
    ParseModel { files: Seq::empty(), cur: None, hunk: None, old_path: None }
}

/// Moves the open hunk into the open file (it is dropped if no file is
/// open).
pub open spec fn flush_hunk(st: ParseModel) -> ParseModel {
    match st.hunk {
        Some(h) => ParseModel {
            hunk: None,
            cur: match st.cur {
                Some(f) => Some(FileDiffModel { hunks: f.hunks.push(h), ..f }),
                None => None,
            },
            ..st
        },
        None => st,
    }
}

/// Moves the open file into the finished list.
pub open spec fn flush_file(st: ParseModel) -> ParseModel {
    match st.cur {
        Some(f) => ParseModel { files: st.files.push(f), cur: None, ..st },
        None => st,
    }
}

/// What a line inside a hunk adds to it.
pub open spec fn extend_hunk(h: HunkModel, line: Seq<char>) -> HunkModel {
    if line.len() > 0 && line[0] == '-' {
        if "---"@.is_prefix_of(line) {
            h
        } else {
            HunkModel { lines: h.lines.push(LineModel::Removed(line.skip(1))), ..h }
        }
    } else if line.len() > 0 && line[0] == '+' {
        if "+++"@.is_prefix_of(line) {
            h
        } else {
            HunkModel { lines: h.lines.push(LineModel::Added(line.skip(1))), ..h }
        }
    } else if line.len() > 0 && line[0] == ' ' {
        HunkModel { lines: h.lines.push(LineModel::Context(line.skip(1))), ..h }
    } else if line.len() == 0 {
        HunkModel { lines: h.lines.push(LineModel::Context(Seq::empty())), ..h }
    } else {
        h
    }
}

proof fn lemma_old_lines_push(ls: Seq<LineModel>, x: LineModel, n: int)
    requires
        0 <= n <= ls.len(),
    ensures
        old_lines_before(ls.push(x), n) == old_lines_before(ls, n),
    decreases n,
{
    if n > 0 {
        lemma_old_lines_push(ls, x, n - 1);
        assert(ls.push(x)[n - 1] == ls[n - 1]);
    }
}

proof fn lemma_removed_lines_push(start: int, ls: Seq<LineModel>, x: LineModel, n: int)
    requires
        0 <= n <= ls.len(),
    ensures
        removed_lines_upto(start, ls.push(x), n) == removed_lines_upto(start, ls, n),
    decreases n,
{
    if n > 0 {
        lemma_removed_lines_push(start, ls, x, n - 1);
        lemma_old_lines_push(ls, x, n - 1);
        assert(ls.push(x)[n - 1] == ls[n - 1]);
    }
}

/// What one body line does to a hunk. A `+` line (other than `+++`) is
/// kept as an added line with the rest of its text; it does not count in
/// the OLD file, so the OLD line numbers of the removed lines are as
/// before. A `-` line (other than `---`) is kept as a removed line: it is
/// the next OLD line, and it is numbered `old_start` plus the OLD lines
/// before it. A ` ` line, or an empty line, is kept as a context line: the
/// next OLD line, removing nothing. No line changes the header numbers.
pub proof fn hunk_body_lines(h: HunkModel, line: Seq<char>)
    ensures
        ({
            let h2 = extend_hunk(h, line);
            &&& h2.old_start == h.old_start
            &&& h2.old_count == h.old_count
            &&& h2.new_start == h.new_start
            &&& h2.new_count == h.new_count
            &&& (line.len() > 0 && line[0] == '+' && !"+++"@.is_prefix_of(line)) ==> {
                &&& h2.lines == h.lines.push(LineModel::Added(line.skip(1)))
                &&& old_lines_before(h2.lines, h2.lines.len() as int) == old_lines_before(
                    h.lines,
                    h.lines.len() as int,
                )
                &&& removed_lines(h2) == removed_lines(h)
            }
            &&& (line.len() > 0 && line[0] == '-' && !"---"@.is_prefix_of(line)) ==> {
                &&& h2.lines == h.lines.push(LineModel::Removed(line.skip(1)))
                &&& old_lines_before(h2.lines, h2.lines.len() as int) == old_lines_before(
                    h.lines,
                    h.lines.len() as int,
                ) + 1
                &&& removed_lines(h2) == removed_lines(h).push(
                    h.old_start + old_lines_before(h.lines, h.lines.len() as int),
                )
            }
            &&& ((line.len() > 0 && line[0] == ' ') || line.len() == 0) ==> {
                &&& h2.lines == h.lines.push(
                    LineModel::Context(
                        if line.len() == 0 {
                            Seq::empty()
                        } else {
                            line.skip(1)
                        },
                    ),
                )
                &&& old_lines_before(h2.lines, h2.lines.len() as int) == old_lines_before(
                    h.lines,
                    h.lines.len() as int,
                ) + 1
                &&& removed_lines(h2) == removed_lines(h)
            }
        }),
{
    let n = h.lines.len() as int;
    let h2 = extend_hunk(h, line);
    if h2.lines.len() == n + 1 {
        let x = h2.lines[n];
        assert(h2.lines == h.lines.push(x)) by {
            if line.len() > 0 && line[0] == '-' {
            } else if line.len() > 0 && line[0] == '+' {
            }
        }
        lemma_old_lines_push(h.lines, x, n);
        lemma_removed_lines_push(h.old_start as int, h.lines, x, n);
        assert(h2.lines[n] == x);
    }
}

/// One line of the parse.
pub open spec fn parse_step(st: ParseModel, line: Seq<char>) -> core::result::Result<ParseModel, Seq<char>> {
    if "--- "@.is_prefix_of(line) {
        let st2 = flush_file(flush_hunk(st));
        Ok(ParseModel { old_path: Some(strip_path_prefix_spec(line.skip("--- "@.len() as int))), ..st2 })
    } else if "+++ "@.is_prefix_of(line) {
        match st.old_path {
            None => Err("'+++' without preceding '---'"@),
            Some(op) => Ok(
                ParseModel {
                    cur: Some(
                        FileDiffModel {
                            old_path: op,
                            new_path: strip_path_prefix_spec(line.skip("+++ "@.len() as int)),
                            hunks: Seq::empty(),
                        },
                    ),
                    old_path: None,
                    ..st
                },
            ),
        }
    } else if "@@ "@.is_prefix_of(line) {
        match parse_hunk_header_spec(line.skip("@@ "@.len() as int)) {
            Ok(h) => Ok(ParseModel { hunk: Some(h), ..flush_hunk(st) }),
            Err(e) => Err(e),
        }
    } else {
        match st.hunk {
            Some(h) => Ok(ParseModel { hunk: Some(extend_hunk(h, line)), ..st }),
            None => Ok(st),
        }
    }
}

/// Inside an open hunk, a `+` line (other than `+++`) extends the hunk by
/// one added line holding the rest of its text, and a `-` line (other than
/// `---`) by one removed line; the files read so far stay as they are.
pub proof fn body_lines_extend_the_open_hunk(st: ParseModel, line: Seq<char>)
    requires
        st.hunk is Some,
        line.len() > 0,
        (line[0] == '+' && !"+++"@.is_prefix_of(line)) || (line[0] == '-' && !"---"@.is_prefix_of(
            line,
        )),
    ensures
        parse_step(st, line) matches Ok(st2) && st2.files == st.files && st2.cur == st.cur
            && st2.old_path == st.old_path && st2.hunk == Some(
            HunkModel {
                lines: st.hunk->Some_0.lines.push(
                    if line[0] == '+' {
                        LineModel::Added(line.skip(1))
                    } else {
                        LineModel::Removed(line.skip(1))
                    },
                ),
                ..st.hunk->Some_0
            },
        ),
{
    reveal_strlit("--- ");
    reveal_strlit("+++ ");
    reveal_strlit("@@ ");
    reveal_strlit("+++");
    reveal_strlit("---");
    if "--- "@.is_prefix_of(line) {
        assert(line[0] == "--- "@[0]);
        assert("---"@.is_prefix_of(line)) by {
            assert(line[1] == "--- "@[1] && line[2] == "--- "@[2]);
        }
    }
    if "+++ "@.is_prefix_of(line) {
        assert(line[0] == "+++ "@[0]);
        assert("+++"@.is_prefix_of(line)) by {
            assert(line[1] == "+++ "@[1] && line[2] == "+++ "@[2]);
        }
    }
    if "@@ "@.is_prefix_of(line) {
        assert(line[0] == "@@ "@[0]);
    }
}

/// The parse state after the first `n` lines.
pub open spec fn parse_upto(ls: Seq<Seq<char>>, n: int) -> core::result::Result<ParseModel, Seq<char>>
    decreases n,
{
    if n <= 0 {
        Ok(initial_parse())
    } else {
        match parse_upto(ls, n - 1) {
            Ok(st) => parse_step(st, ls[n - 1]),
            Err(e) => Err(e),
        }
    }
}

/// What `parse` returns on `input`: the files of the unified diff, or the
/// message of the first error.
pub open spec fn parse_spec(input: Seq<char>) -> core::result::Result<Seq<FileDiffModel>, Seq<char>> {
    let ls = lines(input);
    match parse_upto(ls, ls.len() as int) {
        Ok(st) => Ok(flush_file(flush_hunk(st)).files),
        Err(e) => Err(e),
    }
}

proof fn lemma_parse_error_sticks(ls: Seq<Seq<char>>, i: int, n: int, e: Seq<char>)
    requires
        0 <= i <= n,
        parse_upto(ls, i) == core::result::Result::<ParseModel, Seq<char>>::Err(e),
    ensures
        parse_upto(ls, n) == core::result::Result::<ParseModel, Seq<char>>::Err(e),
    decreases n - i,
{
    if i < n {
        lemma_parse_error_sticks(ls, i + 1, n, e);
    }
}

fn strip_path_prefix(s: &Vec<char>) -> (res: String)
    ensures
        res@ == strip_path_prefix_spec(s@),
{
    let t = trim(s);
    match strip_prefix_str(&t, "a/") {
        Some(r) => string_of(&r),
        None => match strip_prefix_str(&t, "b/") {
            Some(r) => string_of(&r),
            None => string_of(&t),
        },
    }
}

/// The part of `s` before the first `c`.
fn prefix_before(s: &Vec<char>, c: char) -> (res: Vec<char>)
    ensures
        res@ == before_char(s@, c),
{
    let k = find_char(s, c, 0);
    proof {
        lemma_find_char_from(s@, c, 0);
    }
    slice_of(s, 0, k)
}

fn diff_error(prefix: &str, s: &Vec<char>) -> (res: Error)
    ensures
        res matches Error::DiffParse(m) && m@ == prefix@ + s@,
{
    let mut m = String::new();
    push_str(&mut m, prefix);
    push_chars(&mut m, s);
    assert(m@ =~= prefix@ + s@);
    Error::DiffParse(m)
}

fn diff_message(msg: &str) -> (res: Error)
    ensures
        res matches Error::DiffParse(m) && m@ == msg@,
{
    let mut m = String::new();
    push_str(&mut m, msg);
    assert(m@ =~= msg@);
    Error::DiffParse(m)
}

/// Whether an error result matches a spec error message.
pub open spec fn diff_err_is(e: Error, m: Seq<char>) -> bool {
    e matches Error::DiffParse(x) && x@ == m
}

fn parse_range(s: &Vec<char>) -> (res: Result<(usize, usize)>)
    ensures
        match res {
            Ok(r) => parse_range_spec(s@) == core::result::Result::<(usize, usize), Seq<char>>::Ok(r),
            Err(e) => parse_range_spec(s@) matches Err(m) && diff_err_is(e, m),
        },
{
    let c = find_char(s, ',', 0);
    proof {
        lemma_find_char_from(s@, ',', 0);
    }
    let first = slice_of(s, 0, c);
    let start = match parse_usize(&first) {
        Some(v) => v,
        None => return Err(diff_error("bad range ", s)),
    };
    if c >= s.len() {
        return Ok((start, 1));
    }
    let tail = slice_of(s, c + 1, s.len());
    let second = prefix_before(&tail, ',');
    match parse_usize(&second) {
        Some(count) => Ok((start, count)),
        None => Err(diff_error("bad count ", s)),
    }
}

fn parse_hunk_header(rest: &Vec<char>) -> (res: Result<Hunk>)
    ensures
        match res {
            Ok(h) => parse_hunk_header_spec(rest@) == core::result::Result::<HunkModel, Seq<char>>::Ok(h@),
            Err(e) => parse_hunk_header_spec(rest@) matches Err(m) && diff_err_is(e, m),
        },
{
    let end = match find_str(rest, " @@") {
        Some(k) => k,
        None => return Err(diff_error("malformed hunk header: ", rest)),
    };
    proof {
        lemma_find_from_bounds(rest@, " @@"@, 0);
    }
    let header = slice_of(rest, 0, end);
    let toks = split_whitespace(&header);
    let ghost tv = views(toks@);
    assert(header@ == rest@.take(end as int));
    let mut old: Option<(usize, usize)> = None;
    let mut new: Option<(usize, usize)> = None;
    let mut i: usize = 0;
    while i < toks.len()
        invariant
            i <= toks.len(),
            tv == views(toks@),
            tv.len() == toks.len(),
            tv == words(rest@.take(end as int)),
            find_seq(rest@, " @@"@) == Some(end as int),
            scan_tokens(tv, i as int) == core::result::Result::<
                (Option<(usize, usize)>, Option<(usize, usize)>),
                Seq<char>,
            >::Ok((old, new)),
        decreases toks.len() - i,
    {
        let t = &toks[i];
        assert(tv[i as int] == t@);
        if t.len() > 0 && t[0] == '-' {
            let r = parse_range(&drop_first_char(t));
            match r {
                Ok(r) => {
                    old = Some(r);
                },
                Err(e) => {
                    proof {
                        let m = parse_range_spec(t@.skip(1))->Err_0;
                        lemma_scan_error_sticks(tv, i + 1, tv.len() as int, m);
                    }
                    return Err(e);
                },
            }
        } else if t.len() > 0 && t[0] == '+' {
            let r = parse_range(&drop_first_char(t));
            match r {
                Ok(r) => {
                    new = Some(r);
                },
                Err(e) => {
                    proof {
                        let m = parse_range_spec(t@.skip(1))->Err_0;
                        lemma_scan_error_sticks(tv, i + 1, tv.len() as int, m);
                    }
                    return Err(e);
                },
            }
        }
        i = i + 1;
    }
    let (os, oc) = match old {
        Some(r) => r,
        None => return Err(diff_message("missing - range in hunk")),
    };
    let (ns, nc) = match new {
        Some(r) => r,
        None => return Err(diff_message("missing + range in hunk")),
    };
    let h = Hunk { old_start: os, old_count: oc, new_start: ns, new_count: nc, lines: Vec::new() };
    assert(h@.lines =~= Seq::<LineModel>::empty());
    Ok(h)
}

proof fn lemma_scan_error_sticks(toks: Seq<Seq<char>>, i: int, n: int, e: Seq<char>)
    requires
        0 <= i <= n,
        scan_tokens(toks, i) == core::result::Result::<
            (Option<(usize, usize)>, Option<(usize, usize)>),
            Seq<char>,
        >::Err(e),
    ensures
        scan_tokens(toks, n) == core::result::Result::<
            (Option<(usize, usize)>, Option<(usize, usize)>),
            Seq<char>,
        >::Err(e),
    decreases n - i,
{
    if i < n {
        lemma_scan_error_sticks(toks, i + 1, n, e);
    }
}


pub open spec fn opt_file(f: Option<FileDiff>) -> Option<FileDiffModel> {
    match f {
        Some(f) => Some(f@),
        None => None,
    }
}

pub open spec fn opt_hunk(h: Option<Hunk>) -> Option<HunkModel> {
    match h {
        Some(h) => Some(h@),
        None => None,
    }
}

pub open spec fn opt_text(s: Option<String>) -> Option<Seq<char>> {
    match s {
        Some(s) => Some(s@),
        None => None,
    }
}

pub open spec fn parse_model(
    files: Seq<FileDiff>,
    cur: Option<FileDiff>,
    hunk: Option<Hunk>,
    old_path: Option<String>,
) -> ParseModel {
    ParseModel {
        files: file_views(files),
        cur: opt_file(cur),
        hunk: opt_hunk(hunk),
        old_path: opt_text(old_path),
    }
}

/// Moves the open hunk into the open file; drops it if no file is open.
fn flush_hunk_exec(cur: &mut Option<FileDiff>, hunk: &mut Option<Hunk>)
    ensures
        ({
            let before = ParseModel {
                files: Seq::empty(),
                cur: opt_file(*old(cur)),
                hunk: opt_hunk(*old(hunk)),
                old_path: None,
            };
            let after = flush_hunk(before);
            &&& opt_file(*final(cur)) == after.cur
            &&& opt_hunk(*final(hunk)) == after.hunk
        }),
{
    if let Some(h) = hunk.take() {
        if let Some(mut f) = cur.take() {
            let ghost hs = f.hunks@;
            f.hunks.push(h);
            assert(f@.hunks =~= hs.map_values(|x: Hunk| x@).push(h@));
            *cur = Some(f);
        }
    }
}

/// Adds one hunk-body line to the hunk.
fn extend_hunk_exec(h: Hunk, line: &Vec<char>) -> (res: Hunk)
    ensures
        res@ == extend_hunk(h@, line@),
{
    let mut h = h;
    let ghost ls = h.lines@;
    if line.len() > 0 && line[0] == '-' {
        if starts_with_str(line, "---") {
        } else {
            let text = string_of(&drop_first_char(line));
            h.lines.push(HunkLine::Removed(text));
            assert(h@.lines =~= ls.map_values(|l: HunkLine| l@).push(LineModel::Removed(line@.skip(1))));
        }
    } else if line.len() > 0 && line[0] == '+' {
        if starts_with_str(line, "+++") {
        } else {
            let text = string_of(&drop_first_char(line));
            h.lines.push(HunkLine::Added(text));
            assert(h@.lines =~= ls.map_values(|l: HunkLine| l@).push(LineModel::Added(line@.skip(1))));
        }
    } else if line.len() > 0 && line[0] == ' ' {
        let text = string_of(&drop_first_char(line));
        h.lines.push(HunkLine::Context(text));
        assert(h@.lines =~= ls.map_values(|l: HunkLine| l@).push(LineModel::Context(line@.skip(1))));
    } else if line.len() == 0 {
        h.lines.push(HunkLine::Context(String::new()));
        assert(h@.lines =~= ls.map_values(|l: HunkLine| l@).push(LineModel::Context(Seq::empty())));
    }
    h
}

/// Parses a unified diff into its files and hunks.
///
/// Lines are read in order: `--- ` opens a file (closing the previous
/// one), `+++ ` completes its header, `@@ ` opens a hunk, and inside a
/// hunk `-`, `+` and ` ` lines (and empty lines, as context) are
/// recorded; anything else, such as `\ No newline at end of file`, is
/// ignored.
pub fn parse(input: &str) -> (res: Result<Vec<FileDiff>>)
    ensures
        match res {
            Ok(files) => parse_spec(input@) == core::result::Result::<
                Seq<FileDiffModel>,
                Seq<char>,
            >::Ok(file_views(files@)),
            Err(e) => parse_spec(input@) matches Err(m) && diff_err_is(e, m),
        },
{
    let chars = chars_of(input);
    let ls = split_lines(&chars);
    let ghost lv = views(ls@);
    let mut files: Vec<FileDiff> = Vec::new();
    let mut cur: Option<FileDiff> = None;
    let mut cur_hunk: Option<Hunk> = None;
    let mut old_path: Option<String> = None;
    let mut i: usize = 0;
    assert(parse_model(files@, cur, cur_hunk, old_path) =~= initial_parse());
    while i < ls.len()
        invariant
            lv == views(ls@),
            lv == lines(input@),
            lv.len() == ls.len(),
            i <= ls.len(),
            parse_upto(lv, i as int) == core::result::Result::<ParseModel, Seq<char>>::Ok(
                parse_model(files@, cur, cur_hunk, old_path),
            ),
        decreases ls.len() - i,
    {
        let raw = &ls[i];
        assert(lv[i as int] == raw@);
        let ghost st = parse_model(files@, cur, cur_hunk, old_path);
        if let Some(rest) = strip_prefix_str(raw, "--- ") {
            flush_hunk_exec(&mut cur, &mut cur_hunk);
            let ghost old_files = files@;
            if let Some(f) = cur.take() {
                files.push(f);
                assert(file_views(files@) =~= file_views(old_files).push(f@));
            }
            old_path = Some(strip_path_prefix(&rest));
            assert(parse_model(files@, cur, cur_hunk, old_path) =~= ParseModel {
                old_path: Some(strip_path_prefix_spec(raw@.skip("--- "@.len() as int))),
                ..flush_file(flush_hunk(st))
            });
        } else if let Some(rest) = strip_prefix_str(raw, "+++ ") {
            let new_path = strip_path_prefix(&rest);
            let op = match old_path.take() {
                Some(p) => p,
                None => {
                    proof {
                        lemma_parse_error_sticks(
                            lv,
                            i + 1,
                            lv.len() as int,
                            "'+++' without preceding '---'"@,
                        );
                    }
                    return Err(diff_message("'+++' without preceding '---'"));
                },
            };
            let f = FileDiff { old_path: op, new_path, hunks: Vec::new() };
            assert(f@.hunks =~= Seq::<HunkModel>::empty());
            cur = Some(f);
            assert(parse_model(files@, cur, cur_hunk, old_path) =~= ParseModel {
                cur: Some(f@),
                old_path: None,
                ..st
            });
        } else if let Some(rest) = strip_prefix_str(raw, "@@ ") {
            flush_hunk_exec(&mut cur, &mut cur_hunk);
            match parse_hunk_header(&rest) {
                Ok(h) => {
                    cur_hunk = Some(h);
                    assert(parse_model(files@, cur, cur_hunk, old_path) =~= ParseModel {
                        hunk: Some(h@),
                        ..flush_hunk(st)
                    });
                },
                Err(e) => {
                    proof {
                        let m = parse_hunk_header_spec(raw@.skip("@@ "@.len() as int))->Err_0;
                        lemma_parse_error_sticks(lv, i + 1, lv.len() as int, m);
                    }
                    return Err(e);
                },
            }
        } else {
            if let Some(h) = cur_hunk.take() {
                let h2 = extend_hunk_exec(h, raw);
                cur_hunk = Some(h2);
                assert(parse_model(files@, cur, cur_hunk, old_path) =~= ParseModel {
                    hunk: Some(extend_hunk(h@, raw@)),
                    ..st
                });
            }
        }
        i = i + 1;
    }
    let ghost st = parse_model(files@, cur, cur_hunk, old_path);
    flush_hunk_exec(&mut cur, &mut cur_hunk);
    let ghost old_files = files@;
    if let Some(f) = cur.take() {
        files.push(f);
        assert(file_views(files@) =~= file_views(old_files).push(f@));
    }
    assert(file_views(files@) =~= flush_file(flush_hunk(st)).files);
    Ok(files)
}

} // verus!
