//! `reckon trace <id>`: the replay of the steps behind a request, one
//! numbered step per tool call with its latency and a summary line.

use vstd::prelude::*;
use crate::cli::style::{painted_text, style_of, Style, Theme};
use crate::cli::wordmark::{standalone, standalone_spec};
use crate::indexer::PullRequest;
use crate::memoir::{is_rejected, is_rejected_pr};
use crate::number::{decimal, push_dec_padded, push_u64, push_usize, zero_pad};
use crate::path::{file_name, file_name_spec};
use crate::text::{
    chars_of, find_char, find_char_from, lemma_find_char_from, lemma_rskip_ws, push_chars, push_repeat,
    push_str, repeat, rskip_ws, slice_of, string_of, trim, trim_seq, trim_to, trim_to_spec,
    is_whitespace,
};

verus! {

pub struct TraceArgs {
    pub id: String,
    pub no_color: bool,
}

pub open spec fn paint(bold: bool, dim: bool, fg: Option<u8>, theme: Theme, s: Seq<char>) -> Seq<char> {
    painted_text(style_of(bold, dim, false, fg), theme, s)
}

/// The heading: wordmark, `trace` and the request id.
pub open spec fn header_spec(theme: Theme, id: Seq<char>) -> Seq<char> {
    "  "@ + standalone_spec(theme) + " \u{b7} "@ + paint(false, false, None, theme, "trace"@)
        + " \u{b7} "@ + paint(false, false, None, theme, id)
}

pub fn header(theme: Theme, id: &str) -> (res: String)
    ensures
        res@ == header_spec(theme, id@),
{
    let mut s = "  ".to_owned();
    push_str(&mut s, standalone(theme).as_str());
    push_str(&mut s, " \u{b7} ");
    push_str(&mut s, Style::default().paint(theme, "trace").render().as_str());
    push_str(&mut s, " \u{b7} ");
    push_str(&mut s, Style::default().paint(theme, id).render().as_str());
    assert(s@ =~= header_spec(theme, id@));
    s
}

/// `s` right-aligned in `width` columns (std `{:>width}`).
pub open spec fn pad_left(s: Seq<char>, width: int) -> Seq<char> {
    if s.len() >= width {
        s
    } else {
        repeat(' ', (width - s.len()) as nat) + s
    }
}

/// The pieces of `s` each ending after a `c` (the last may not), as std's
/// `split_inclusive` gives them; none for the empty text.
pub open spec fn split_inclusive_spec(s: Seq<char>, c: char) -> Seq<Seq<char>>
    decreases s.len(),
{
    if s.len() == 0 {
        Seq::empty()
    } else {
        let k = find_char_from(s, c, 0);
        if k < s.len() {
            proof {
                lemma_find_char_from(s, c, 0);
            }
            seq![s.take(k + 1)] + split_inclusive_spec(s.skip(k + 1), c)
        } else {
            seq![s]
        }
    }
}

/// `s` without trailing whitespace.
pub open spec fn trim_end_seq(s: Seq<char>) -> Seq<char> {
    s.take(rskip_ws(s, s.len() as int))
}

/// One word of a summary: `excluded` and `rejected` in dim red (their
/// trailing whitespace replaced by one space), any other word dim.
pub open spec fn styled_word(theme: Theme, word: Seq<char>) -> Seq<char> {
    let t = trim_seq(word);
    if t == "excluded"@ || t == "rejected"@ {
        paint(false, true, Some(95u8), theme, trim_end_seq(word)) + " "@
    } else {
        paint(false, true, None, theme, word)
    }
}

pub open spec fn styled_words(theme: Theme, ws: Seq<Seq<char>>, k: int) -> Seq<char>
    decreases k,
{
    if k <= 0 {
        Seq::empty()
    } else {
        styled_words(theme, ws, k - 1) + styled_word(theme, ws[k - 1])
    }
}

/// The summary line of a step, dimmed, with rejections marked.
pub open spec fn summary_spec(theme: Theme, summary: Seq<char>, has_rejected: bool) -> Seq<char> {
    if has_rejected {
        let ws = split_inclusive_spec(summary, ' ');
        styled_words(theme, ws, ws.len() as int)
    } else {
        paint(false, true, None, theme, summary)
    }
}

/// The two lines of step `n`: number, tool, arguments (kept to 40
/// characters) and latency; then the indented summary.
pub open spec fn step_spec(
    theme: Theme,
    n: u32,
    tool: Seq<char>,
    args: Seq<char>,
    ms: u32,
    summary: Seq<char>,
    has_rejected: bool,
) -> (Seq<char>, Seq<char>) {
    (
        "  "@ + paint(false, true, None, theme, zero_pad(decimal(n as nat), 2)) + "  "@ + paint(
            true,
            false,
            None,
            theme,
            tool,
        ) + "  "@ + paint(false, true, None, theme, trim_to_spec(args, 40)) + "  "@ + paint(
            false,
            true,
            None,
            theme,
            pad_left(decimal(ms as nat), 4) + "ms"@,
        ),
        "  "@ + "      "@ + summary_spec(theme, summary, has_rejected),
    )
}

fn styled(theme: Theme, word: &Vec<char>) -> (res: String)
    ensures
        res@ == styled_word(theme, word@),
{
    let t = trim(word);
    if crate::text::seq_eq(&t, &chars_of("excluded")) || crate::text::seq_eq(
        &t,
        &chars_of("rejected"),
    ) {
        let mut b = word.len();
        while b > 0 && is_whitespace(word[b - 1])
            invariant
                b <= word.len(),
                rskip_ws(word@, word@.len() as int) == rskip_ws(word@, b as int),
            decreases b,
        {
            b = b - 1;
        }
        proof {
            lemma_rskip_ws(word@, b as int);
        }
        let head = string_of(&slice_of(word, 0, b));
        assert(head@ =~= trim_end_seq(word@));
        let mut s = Style::red_dim().paint(theme, head.as_str()).render();
        push_str(&mut s, " ");
        s
    } else {
        Style::dim().paint(theme, string_of(word).as_str()).render()
    }
}

fn styled_summary(theme: Theme, summary: &str, has_rejected: bool) -> (res: String)
    ensures
        res@ == summary_spec(theme, summary@, has_rejected),
{
    if !has_rejected {
        return Style::dim().paint(theme, summary).render();
    }
    let v = chars_of(summary);
    let mut out = String::new();
    let mut i: usize = 0;
    let ghost ws = split_inclusive_spec(summary@, ' ');
    let ghost mut done: Seq<Seq<char>> = Seq::empty();
    assert(v@.skip(0) =~= v@);
    while i < v.len()
        invariant
            i <= v@.len(),
            v@ == summary@,
            ws == split_inclusive_spec(summary@, ' '),
            ws == done + split_inclusive_spec(v@.skip(i as int), ' '),
            out@ == styled_words(theme, done, done.len() as int),
        decreases v.len() - i,
    {
        let ghost rest = v@.skip(i as int);
        let k = find_char(&v, ' ', i);
        proof {
            lemma_find_char_from(v@, ' ', i as int);
            lemma_find_char_shift(v@, ' ', i as int);
        }
        let end = if k < v.len() {
            k + 1
        } else {
            v.len()
        };
        let word = slice_of(&v, i, end);
        let piece = styled(theme, &word);
        push_str(&mut out, piece.as_str());
        proof {
            if k < v.len() {
                assert(word@ =~= rest.take(k - i + 1));
                assert(rest.skip(k - i + 1) =~= v@.skip(k + 1));
            } else {
                assert(word@ =~= rest);
                assert(v@.skip(v@.len() as int) =~= Seq::<char>::empty());
            }
            let nd = done.push(word@);
            assert(styled_words(theme, nd, nd.len() as int) == styled_words(theme, done, done.len() as int)
                + styled_word(theme, word@)) by {
                assert(nd.drop_last() =~= done);
                lemma_styled_prefix(theme, nd, done, done.len() as int);
            }
            assert(ws =~= nd + split_inclusive_spec(v@.skip(end as int), ' '));
            done = nd;
        }
        i = end;
    }
    assert(v@.skip(v@.len() as int) =~= Seq::<char>::empty());
    assert(done + Seq::<Seq<char>>::empty() =~= done);
    out
}

proof fn lemma_find_char_shift(s: Seq<char>, c: char, i: int)
    requires
        0 <= i <= s.len(),
    ensures
        find_char_from(s.skip(i), c, 0) == find_char_from(s, c, i) - i,
    decreases s.len() - i,
{
    let r = s.skip(i);
    lemma_find_char_shift_at(s, c, i, 0);
}

proof fn lemma_find_char_shift_at(s: Seq<char>, c: char, i: int, j: int)
    requires
        0 <= i <= s.len(),
        0 <= j <= s.len() - i,
    ensures
        find_char_from(s.skip(i), c, j) == find_char_from(s, c, i + j) - i,
    decreases s.len() - i - j,
{
    if j < s.len() - i && s[i + j] != c {
        assert(s.skip(i)[j] == s[i + j]);
        lemma_find_char_shift_at(s, c, i, j + 1);
    } else if j < s.len() - i {
        assert(s.skip(i)[j] == s[i + j]);
    }
}

proof fn lemma_styled_prefix(theme: Theme, a: Seq<Seq<char>>, b: Seq<Seq<char>>, k: int)
    requires
        0 <= k <= b.len(),
        k <= a.len(),
        forall|q: int| 0 <= q < k ==> a[q] == b[q],
    ensures
        styled_words(theme, a, k) == styled_words(theme, b, k),
    decreases k,
{
    if k > 0 {
        lemma_styled_prefix(theme, a, b, k - 1);
    }
}

/// The two lines printed for one step.
pub fn step_lines(
    theme: Theme,
    n: u32,
    tool: &str,
    args: &str,
    ms: u32,
    summary: &str,
    has_rejected: bool,
) -> (res: (String, String))
    ensures
        (res.0@, res.1@) == step_spec(theme, n, tool@, args@, ms, summary@, has_rejected),
{
    let mut num = String::new();
    push_dec_padded(&mut num, n as u64, 2);
    let mut msv = String::new();
    push_u64(&mut msv, ms as u64);
    let digits = chars_of(msv.as_str()).len();
    let mut lat = String::new();
    if digits < 4 {
        push_repeat(&mut lat, ' ', 4 - digits);
    }
    push_str(&mut lat, msv.as_str());
    push_str(&mut lat, "ms");
    assert(lat@ =~= pad_left(decimal(ms as nat), 4) + "ms"@);
    let mut a = "  ".to_owned();
    push_str(&mut a, Style::dim().paint(theme, num.as_str()).render().as_str());
    push_str(&mut a, "  ");
    push_str(&mut a, Style::bold().paint(theme, tool).render().as_str());
    push_str(&mut a, "  ");
    push_str(&mut a, Style::dim().paint(theme, trim_to(args, 40).as_str()).render().as_str());
    push_str(&mut a, "  ");
    push_str(&mut a, Style::dim().paint(theme, lat.as_str()).render().as_str());
    let mut b = "  ".to_owned();
    push_str(&mut b, "      ");
    push_str(&mut b, styled_summary(theme, summary, has_rejected).as_str());
    let ghost want = step_spec(theme, n, tool@, args@, ms, summary@, has_rejected);
    assert(a@ =~= want.0);
    assert(b@ =~= want.1);
    (a, b)
}

/// The closing line of a trace.
pub open spec fn footer_spec(theme: Theme, id: Seq<char>) -> Seq<char> {
    paint(
        false,
        true,
        None,
        theme,
        "total 510ms \u{b7} 7 steps \u{b7} "@ + id + " \u{b7} orchestrated by bob"@,
    )
}

pub fn footer(theme: Theme, id: &str) -> (res: String)
    ensures
        res@ == footer_spec(theme, id@),
{
    let mut t = "total 510ms \u{b7} 7 steps \u{b7} ".to_owned();
    push_str(&mut t, id);
    push_str(&mut t, " \u{b7} orchestrated by bob");
    Style::dim().paint(theme, t.as_str()).render()
}

/// How the repository is named in a trace: the last component of its
/// root, or the root itself.
pub open spec fn short_repo_spec(root: Seq<char>) -> Seq<char> {
    match file_name_spec(root) {
        Some(n) => n,
        None => root,
    }
}

pub fn short_repo(root: &str) -> (res: String)
    ensures
        res@ == short_repo_spec(root@),
{
    match file_name(root) {
        Some(n) => n,
        None => root.to_owned(),
    }
}

/// The summary of the repository-context step.
pub fn context_summary(repo: &str, commits: usize) -> (res: String)
    ensures
        res@ == "via bob mcp \u{b7} repo: "@ + repo@ + " \u{b7} "@ + decimal(commits as nat)
            + " commits"@,
{
    let mut s = "via bob mcp \u{b7} repo: ".to_owned();
    push_str(&mut s, repo);
    push_str(&mut s, " \u{b7} ");
    push_usize(&mut s, commits);
    push_str(&mut s, " commits");
    s
}

/// The summary of the history step: the head commit and its date.
pub fn history_summary(head_sha: &str, head_date: &str) -> (res: String)
    ensures
        res@ == "3 commits \u{b7} earliest "@ + head_sha@ + " ("@ + head_date@ + ")"@,
{
    let mut s = "3 commits \u{b7} earliest ".to_owned();
    push_str(&mut s, head_sha);
    push_str(&mut s, " (");
    push_str(&mut s, head_date);
    push_str(&mut s, ")");
    s
}

/// Index of the first pull request that links incident `id`.
pub open spec fn first_linking(prs: Seq<PullRequest>, id: Seq<char>, i: int) -> Option<int>
    decreases prs.len() - i,
{
    if i < 0 || i >= prs.len() {
        None
    } else if exists|k: int| 0 <= k < prs[i].linked_incidents@.len() && (#[trigger] prs[i].linked_incidents@[k])@ == id {
        Some(i)
    } else {
        first_linking(prs, id, i + 1)
    }
}

/// The first pull request linking incident `id`.
pub fn pr_linking<'a>(prs: &'a [PullRequest], id: &str) -> (res: Option<&'a PullRequest>)
    ensures
        match first_linking(prs@, id@, 0) {
            Some(i) => res == Some(&prs@[i]),
            None => res is None,
        },
{
    let mut i: usize = 0;
    while i < prs.len()
        invariant
            i <= prs@.len(),
            first_linking(prs@, id@, 0) == first_linking(prs@, id@, i as int),
        decreases prs.len() - i,
    {
        let p = &prs[i];
        let mut k: usize = 0;
        while k < p.linked_incidents.len()
            invariant
                i < prs@.len(),
                *p == prs@[i as int],
                first_linking(prs@, id@, 0) == first_linking(prs@, id@, i as int),
                k <= p.linked_incidents@.len(),
                forall|q: int| 0 <= q < k ==> (#[trigger] p.linked_incidents@[q])@ != id@,
            decreases p.linked_incidents.len() - k,
        {
            if crate::text::seq_eq(&chars_of(p.linked_incidents[k].as_str()), &chars_of(id)) {
                assert(prs@[i as int].linked_incidents@[k as int]@ == id@);
                assert(first_linking(prs@, id@, i as int) == Some(i as int));
                return Some(p);
            }
            k = k + 1;
        }
        i = i + 1;
    }
    None
}

/// Index of the first pull request closed without being merged.
pub open spec fn first_rejected(prs: Seq<PullRequest>, i: int) -> Option<int>
    decreases prs.len() - i,
{
    if i < 0 || i >= prs.len() {
        None
    } else if is_rejected(prs[i]) {
        Some(i)
    } else {
        first_rejected(prs, i + 1)
    }
}

/// The first pull request closed without being merged.
pub fn rejected_pr<'a>(prs: &'a [PullRequest]) -> (res: Option<&'a PullRequest>)
    ensures
        match first_rejected(prs@, 0) {
            Some(i) => res == Some(&prs@[i]),
            None => res is None,
        },
{
    let mut i: usize = 0;
    while i < prs.len()
        invariant
            i <= prs@.len(),
            first_rejected(prs@, 0) == first_rejected(prs@, i as int),
        decreases prs.len() - i,
    {
        if is_rejected_pr(&prs[i]) {
            return Some(&prs[i]);
        }
        i = i + 1;
    }
    None
}

/// How a pull request is quoted in a step summary: `PR #n "title"`, with
/// ` rejected` after it for a rejected one.
pub fn pr_summary(p: &PullRequest, rejected: bool) -> (res: String)
    ensures
        res@ == "PR #"@ + decimal(p.number as nat) + " \""@ + p.title@ + "\""@ + (if rejected {
            " rejected"@
        } else {
            Seq::empty()
        }),
{
    let mut s = "PR #".to_owned();
    push_u64(&mut s, p.number);
    push_str(&mut s, " \"");
    push_str(&mut s, p.title.as_str());
    push_str(&mut s, "\"");
    if rejected {
        push_str(&mut s, " rejected");
    }
    assert(s@ =~= "PR #"@ + decimal(p.number as nat) + " \""@ + p.title@ + "\""@ + (if rejected {
        " rejected"@
    } else {
        Seq::empty()
    }));
    s
}

} // verus!
