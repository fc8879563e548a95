//! `reckon why <path>:<line>`: the explanation screen. Its streaming
//! status messages, heading, evidence row, "Why this code exists"
//! paragraph, decision trail, sources line and footer.

use vstd::prelude::*;
use crate::cli::style::{painted_text, rule, style_of, Style, Theme};
use crate::cli::wordmark::{standalone, standalone_spec};
use crate::git::BlameLine;
use crate::indexer::ArtifactBundle;
use crate::number::{decimal, hex, push_hex_padded, push_u64, push_usize, zero_pad};
use crate::postmortem::Postmortem;
use crate::text::{
    capitalize, capitalize_spec, chars_of, find_char, find_char_from, is_whitespace, lemma_find_char_from,
    lines, pad_right, pad_to, pieces, push_str, replace_char, replace_char_spec, skip_ws, slice_of,
    split_lines, split_str, starts_with_str, string_of, trim, trim_seq, trim_start_seq, trim_to,
    trim_to_spec, views,
};

verus! {

pub struct WhyArgs {
    pub path: String,
    pub start: usize,
    pub end: usize,
    pub no_color: bool,
    pub no_stream: bool,
}

pub open spec fn dim_text(theme: Theme, s: Seq<char>) -> Seq<char> {
    painted_text(style_of(false, true, false, None), theme, s)
}

pub open spec fn dec(n: int) -> Seq<char> {
    decimal(n as nat)
}

/// The status messages streamed while the explanation is gathered.
pub open spec fn stream_messages_spec() -> Seq<Seq<char>> {
    seq![
        "reckoning \u{b7} loading repo context from bob..."@,
        "reckoning \u{b7} fetching commits..."@,
        "reckoning \u{b7} matching postmortems..."@,
        "reckoning \u{b7} bob synthesizing rationale..."@,
    ]
}

pub fn stream_messages() -> (res: Vec<String>)
    ensures
        res@.map_values(|s: String| s@) == stream_messages_spec(),
{
    let mut v: Vec<String> = Vec::new();
    v.push("reckoning \u{b7} loading repo context from bob...".to_owned());
    v.push("reckoning \u{b7} fetching commits...".to_owned());
    v.push("reckoning \u{b7} matching postmortems...".to_owned());
    v.push("reckoning \u{b7} bob synthesizing rationale...".to_owned());
    assert(v@.map_values(|s: String| s@) =~= stream_messages_spec());
    v
}

/// The heading: wordmark, path, the enclosing function where one was
/// found, and the line range, trimmed.
pub open spec fn heading_spec(
    theme: Theme,
    path: Seq<char>,
    start: usize,
    end: usize,
    hint: Seq<char>,
) -> Seq<char> {
    trim_seq(
        standalone_spec(theme) + " \u{b7} "@ + path + " \u{b7} "@ + (if hint.len() == 0 {
            Seq::empty()
        } else {
            hint + " \u{b7} "@
        }) + "lines "@ + dec(start as int) + "\u{2013}"@ + dec(end as int),
    )
}

pub fn heading(theme: Theme, path: &str, start: usize, end: usize, hint: &str) -> (res: String)
    ensures
        res@ == heading_spec(theme, path@, start, end, hint@),
{
    let mut h = standalone(theme);
    push_str(&mut h, " \u{b7} ");
    push_str(&mut h, path);
    push_str(&mut h, " \u{b7} ");
    if chars_of(hint).len() > 0 {
        push_str(&mut h, hint);
        push_str(&mut h, " \u{b7} ");
    }
    push_str(&mut h, "lines ");
    push_usize(&mut h, start);
    push_str(&mut h, "\u{2013}");
    push_usize(&mut h, end);
    let ghost raw = h@;
    assert(raw =~= standalone_spec(theme) + " \u{b7} "@ + path@ + " \u{b7} "@ + (if hint@.len()
        == 0 {
        Seq::empty()
    } else {
        hint@ + " \u{b7} "@
    }) + "lines "@ + dec(start as int) + "\u{2013}"@ + dec(end as int));
    string_of(&trim(&chars_of(h.as_str())))
}

/// The evidence tier recorded in a memoir, or `moderate` without one.
pub fn tier_or_default(recorded: Option<&str>) -> (res: String)
    ensures
        res@ == match recorded {
            Some(t) => t@,
            None => "moderate"@,
        },
{
    match recorded {
        Some(t) => t.to_owned(),
        None => "moderate".to_owned(),
    }
}

/// The evidence row: an amber dot, the tier capitalised, and the note on
/// what backs it (on two lines).
pub open spec fn evidence_row_spec(theme: Theme, tier: Seq<char>) -> Seq<char> {
    "  "@ + painted_text(style_of(false, false, false, Some(172u8)), theme, "\u{25cf}"@) + " "@
        + dim_text(theme, "Evidence"@) + "  "@ + painted_text(
        style_of(true, false, false, Some(172u8)),
        theme,
        capitalize_spec(tier),
    ) + "  \u{b7}  "@ + "commit + PR + incident\n                          "@ + painted_text(
        style_of(false, true, true, None),
        theme,
        "confirmed by bob cross-check"@,
    )
}

pub fn evidence_row(theme: Theme, tier: &str) -> (res: String)
    ensures
        res@ == evidence_row_spec(theme, tier@),
{
    let mut s = "  ".to_owned();
    push_str(&mut s, Style::amber().paint(theme, "\u{25cf}").render().as_str());
    push_str(&mut s, " ");
    push_str(&mut s, Style::dim().paint(theme, "Evidence").render().as_str());
    push_str(&mut s, "  ");
    let cap = capitalize(tier);
    push_str(&mut s, Style::amber_bold().paint(theme, cap.as_str()).render().as_str());
    push_str(&mut s, "  \u{b7}  ");
    push_str(&mut s, "commit + PR + incident\n                          ");
    push_str(
        &mut s,
        Style::dim_italic().paint(theme, "confirmed by bob cross-check").render().as_str(),
    );
    assert(s@ =~= evidence_row_spec(theme, tier@));
    s
}

/// The postmortem the explanation cites: the first one linked to the
/// module, if any.
pub fn pick_scar<'a>(postmortems: &Vec<&'a Postmortem>) -> (res: Option<&'a Postmortem>)
    ensures
        match res {
            Some(p) => postmortems@.len() > 0 && *p == *postmortems@[0],
            None => postmortems@.len() == 0,
        },
{
    if postmortems.len() > 0 {
        Some(postmortems[0])
    } else {
        None
    }
}

/// The first of the pieces `ps[i..]` that does not start with `#`.
pub open spec fn first_unheaded(ps: Seq<Seq<char>>, i: int) -> Option<Seq<char>>
    decreases ps.len() - i,
{
    if i < 0 || i >= ps.len() {
        None
    } else if ps[i].len() > 0 && ps[i][0] == '#' {
        first_unheaded(ps, i + 1)
    } else {
        Some(ps[i])
    }
}

/// The paragraph of a postmortem the explanation quotes: the first
/// blank-line-separated piece not starting with `#` (the whole body when
/// there is none), its line breaks turned into spaces.
pub open spec fn lead_paragraph(body: Seq<char>) -> Seq<char> {
    let p = match first_unheaded(pieces(body, "\n\n"@), 0) {
        Some(p) => p,
        None => body,
    };
    replace_char_spec(p, '\n', ' ')
}

/// The "Why this code exists" paragraph: from the cited postmortem, else
/// from the most recent commit, else a note that nothing is indexed.
pub open spec fn why_text_spec(scar: Option<Postmortem>, bundle: ArtifactBundle) -> Seq<char> {
    match scar {
        Some(pm) => "Added after "@ + pm.fm.id@ + " ("@ + pm.fm.date@ + "). "@ + trim_to_spec(
            lead_paragraph(pm.body@),
            220,
        ),
        None => if bundle.commits@.len() > 0 {
            "Most recent change: \""@ + bundle.commits@[0].summary@ + "\" \u{2014} commit "@
                + bundle.commits@[0].short_sha@ + "."@
        } else {
            "No indexed history for this region yet."@
        },
    }
}

pub fn why_text(scar: Option<&Postmortem>, bundle: &ArtifactBundle) -> (res: String)
    ensures
        res@ == why_text_spec(
            match scar {
                Some(p) => Some(*p),
                None => None,
            },
            *bundle,
        ),
{
    match scar {
        Some(pm) => {
            let body = chars_of(pm.body.as_str());
            let ps = split_str(&body, "\n\n");
            let ghost pv = views(ps@);
            let mut i: usize = 0;
            while i < ps.len() && ps[i].len() > 0 && ps[i][0] == '#'
                invariant
                    i <= ps@.len(),
                    pv == views(ps@),
                    pv == pieces(body@, "\n\n"@),
                    first_unheaded(pv, 0) == first_unheaded(pv, i as int),
                decreases ps.len() - i,
            {
                assert(pv[i as int] == ps@[i as int]@);
                i = i + 1;
            }
            let para = if i < ps.len() {
                assert(pv[i as int] == ps@[i as int]@);
                replace_char(&ps[i], '\n', ' ')
            } else {
                replace_char(&body, '\n', ' ')
            };
            let mut s = "Added after ".to_owned();
            push_str(&mut s, pm.fm.id.as_str());
            push_str(&mut s, " (");
            push_str(&mut s, pm.fm.date.as_str());
            push_str(&mut s, "). ");
            let p = string_of(&para);
            push_str(&mut s, trim_to(p.as_str(), 220).as_str());
            assert(s@ =~= why_text_spec(Some(*pm), *bundle));
            s
        },
        None => {
            if bundle.commits.len() > 0 {
                let c = &bundle.commits[0];
                let mut s = "Most recent change: \"".to_owned();
                push_str(&mut s, c.summary.as_str());
                push_str(&mut s, "\" \u{2014} commit ");
                push_str(&mut s, c.short_sha.as_str());
                push_str(&mut s, ".");
                assert(s@ =~= why_text_spec(None, *bundle));
                s
            } else {
                "No indexed history for this region yet.".to_owned()
            }
        },
    }
}

/// Whether an earlier blame line than the `i`-th names the same commit.
pub open spec fn seen_before(bs: Seq<BlameLine>, i: int) -> bool {
    exists|j: int| 0 <= j < i && (#[trigger] bs[j]).sha@ == bs[i].sha@
}

pub open spec fn commit_row_spec(theme: Theme, b: BlameLine) -> Seq<char> {
    dim_text(theme, b.short_sha@) + "  "@ + pad_right(trim_to_spec(b.summary@, 38), 40) + "  "@
        + dim_text(theme, "@"@ + b.author@)
}

/// Rows for the first `k` blame lines, one per commit (where first seen).
pub open spec fn commit_rows(theme: Theme, bs: Seq<BlameLine>, k: int) -> Seq<Seq<char>>
    decreases k,
{
    if k <= 0 {
        Seq::empty()
    } else if seen_before(bs, k - 1) {
        commit_rows(theme, bs, k - 1)
    } else {
        commit_rows(theme, bs, k - 1).push(commit_row_spec(theme, bs[k - 1]))
    }
}

pub open spec fn pr_state_spec(theme: Theme, state: Seq<char>) -> Seq<char> {
    if state == "merged"@ {
        dim_text(theme, "merged"@)
    } else if state == "closed"@ {
        painted_text(style_of(false, true, false, Some(95u8)), theme, "\u{2717} closed"@)
    } else {
        dim_text(theme, state)
    }
}

pub open spec fn pr_row_spec(theme: Theme, p: crate::indexer::PullRequest) -> Seq<char> {
    pad_right("#"@ + dec(p.number as int), 9) + "  "@ + pad_right(trim_to_spec(p.title@, 40), 40)
        + "  "@ + pr_state_spec(theme, p.state@)
}

pub open spec fn issue_row_spec(theme: Theme, i: crate::indexer::Issue) -> Seq<char> {
    dim_text(theme, i.id@) + "  "@ + pad_right(trim_to_spec(i.title@, 40), 40) + "  "@ + dim_text(
        theme,
        i.state@,
    )
}

/// The decision trail: one row per commit of the blamed lines, one per
/// pull request and one per incident of the bundle; a dim note when
/// there is none.
pub open spec fn decision_trail_spec(
    theme: Theme,
    bundle: ArtifactBundle,
    blame: Seq<BlameLine>,
) -> Seq<Seq<char>> {
    let rows = commit_rows(theme, blame, blame.len() as int) + bundle.prs@.map_values(
        |p: crate::indexer::PullRequest| pr_row_spec(theme, p),
    ) + bundle.issues@.map_values(|i: crate::indexer::Issue| issue_row_spec(theme, i));
    if rows.len() == 0 {
        seq![dim_text(theme, "(no decisions recorded)"@)]
    } else {
        rows
    }
}

fn seen_earlier(bs: &Vec<BlameLine>, i: usize) -> (res: bool)
    requires
        i < bs.len(),
    ensures
        res == seen_before(bs@, i as int),
{
    let mut j: usize = 0;
    while j < i
        invariant
            j <= i < bs@.len(),
            forall|q: int| 0 <= q < j ==> (#[trigger] bs@[q]).sha@ != bs@[i as int].sha@,
        decreases i - j,
    {
        if bs[j].sha == bs[i].sha {
            return true;
        }
        j = j + 1;
    }
    false
}

fn pr_state(theme: Theme, state: &str) -> (res: String)
    ensures
        res@ == pr_state_spec(theme, state@),
{
    if crate::text::seq_eq(&chars_of(state), &chars_of("merged")) {
        Style::dim().paint(theme, "merged").render()
    } else if crate::text::seq_eq(&chars_of(state), &chars_of("closed")) {
        Style::red_dim().paint(theme, "\u{2717} closed").render()
    } else {
        Style::dim().paint(theme, state).render()
    }
}

pub fn decision_trail(theme: Theme, bundle: &ArtifactBundle, blame: &Vec<BlameLine>) -> (res: Vec<
    String,
>)
    ensures
        res@.map_values(|s: String| s@) == decision_trail_spec(theme, *bundle, blame@),
{
    let mut rows: Vec<String> = Vec::new();
    let mut i: usize = 0;
    while i < blame.len()
        invariant
            i <= blame@.len(),
            rows@.map_values(|s: String| s@) == commit_rows(theme, blame@, i as int),
        decreases blame.len() - i,
    {
        if !seen_earlier(blame, i) {
            let b = &blame[i];
            let mut r = Style::dim().paint(theme, b.short_sha.as_str()).render();
            push_str(&mut r, "  ");
            push_str(&mut r, pad_to(trim_to(b.summary.as_str(), 38).as_str(), 40).as_str());
            push_str(&mut r, "  ");
            let mut at = "@".to_owned();
            push_str(&mut at, b.author.as_str());
            push_str(&mut r, Style::dim().paint(theme, at.as_str()).render().as_str());
            let ghost before = rows@.map_values(|s: String| s@);
            assert(r@ =~= commit_row_spec(theme, *b));
            rows.push(r);
            assert(rows@.map_values(|s: String| s@) =~= before.push(commit_row_spec(theme, *b)));
        }
        i = i + 1;
    }
    let ghost cr = rows@.map_values(|s: String| s@);
    let ghost prs_rows = bundle.prs@.map_values(
        |p: crate::indexer::PullRequest| pr_row_spec(theme, p),
    );
    let mut k: usize = 0;
    while k < bundle.prs.len()
        invariant
            k <= bundle.prs@.len(),
            prs_rows == bundle.prs@.map_values(|p: crate::indexer::PullRequest| pr_row_spec(theme, p)),
            rows@.map_values(|s: String| s@) == cr + prs_rows.take(k as int),
        decreases bundle.prs.len() - k,
    {
        let p = &bundle.prs[k];
        let mut n = "#".to_owned();
        push_u64(&mut n, p.number);
        let mut r = pad_to(n.as_str(), 9);
        push_str(&mut r, "  ");
        push_str(&mut r, pad_to(trim_to(p.title.as_str(), 40).as_str(), 40).as_str());
        push_str(&mut r, "  ");
        push_str(&mut r, pr_state(theme, p.state.as_str()).as_str());
        let ghost before = rows@.map_values(|s: String| s@);
        assert(r@ =~= pr_row_spec(theme, *p));
        rows.push(r);
        assert(rows@.map_values(|s: String| s@) =~= before.push(pr_row_spec(theme, *p)));
        assert(prs_rows.take(k + 1) =~= prs_rows.take(k as int).push(prs_rows[k as int]));
        k = k + 1;
    }
    assert(prs_rows.take(bundle.prs@.len() as int) =~= prs_rows);
    let ghost cp = rows@.map_values(|s: String| s@);
    let ghost issue_rows = bundle.issues@.map_values(
        |i: crate::indexer::Issue| issue_row_spec(theme, i),
    );
    let mut q: usize = 0;
    while q < bundle.issues.len()
        invariant
            q <= bundle.issues@.len(),
            issue_rows == bundle.issues@.map_values(|i: crate::indexer::Issue| issue_row_spec(theme, i)),
            rows@.map_values(|s: String| s@) == cp + issue_rows.take(q as int),
        decreases bundle.issues.len() - q,
    {
        let iss = &bundle.issues[q];
        let mut r = Style::dim().paint(theme, iss.id.as_str()).render();
        push_str(&mut r, "  ");
        push_str(&mut r, pad_to(trim_to(iss.title.as_str(), 40).as_str(), 40).as_str());
        push_str(&mut r, "  ");
        push_str(&mut r, Style::dim().paint(theme, iss.state.as_str()).render().as_str());
        let ghost before = rows@.map_values(|s: String| s@);
        assert(r@ =~= issue_row_spec(theme, *iss));
        rows.push(r);
        assert(rows@.map_values(|s: String| s@) =~= before.push(issue_row_spec(theme, *iss)));
        assert(issue_rows.take(q + 1) =~= issue_rows.take(q as int).push(issue_rows[q as int]));
        q = q + 1;
    }
    assert(issue_rows.take(bundle.issues@.len() as int) =~= issue_rows);
    if rows.len() == 0 {
        rows.push(Style::dim().paint(theme, "(no decisions recorded)").render());
        assert(rows@.map_values(|s: String| s@) =~= seq![dim_text(theme, "(no decisions recorded)"@)]);
    }
    rows
}

/// The sources line: counts of commits, pull requests and incidents read,
/// and the time taken.
pub open spec fn sources_line_spec(theme: Theme, c: nat, p: nat, i: nat, ms: nat) -> Seq<char> {
    dim_text(
        theme,
        decimal(c) + " commits \u{b7} "@ + decimal(p) + " PRs \u{b7} "@ + decimal(i)
            + " incidents \u{b7} "@ + decimal(ms) + "ms"@,
    )
}

pub fn sources_line(theme: Theme, commits: usize, prs: usize, incidents: usize, ms: u64) -> (res:
    String)
    ensures
        res@ == sources_line_spec(theme, commits as nat, prs as nat, incidents as nat, ms as nat),
{
    let mut t = String::new();
    push_usize(&mut t, commits);
    push_str(&mut t, " commits \u{b7} ");
    push_usize(&mut t, prs);
    push_str(&mut t, " PRs \u{b7} ");
    push_usize(&mut t, incidents);
    push_str(&mut t, " incidents \u{b7} ");
    push_u64(&mut t, ms);
    push_str(&mut t, "ms");
    let ghost want = decimal(commits as nat) + " commits \u{b7} "@ + decimal(prs as nat)
        + " PRs \u{b7} "@ + decimal(incidents as nat) + " incidents \u{b7} "@ + decimal(ms as nat)
        + "ms"@;
    assert(t@ =~= want);
    Style::dim().paint(theme, t.as_str()).render()
}

/// A trace id: `rec_` and `n` in hexadecimal, at least six digits.
pub open spec fn trace_id_spec(n: u32) -> Seq<char> {
    "rec_"@ + zero_pad(hex(n as nat), 6)
}

pub fn trace_id(n: u32) -> (res: String)
    ensures
        res@ == trace_id_spec(n),
{
    let mut s = "rec_".to_owned();
    push_hex_padded(&mut s, n as u64, 6);
    s
}

/// The two footer lines: the bob attribution and where to expand the
/// trace.
pub open spec fn footer_spec(theme: Theme, trace_id: Seq<char>) -> (Seq<char>, Seq<char>) {
    (
        dim_text(
            theme,
            "synthesized by bob  \u{b7}  granite-code (draft) \u{2192} partner-llm (verify)"@,
        ),
        dim_text(
            theme,
            "trace "@ + trace_id + "    \u{b7}  run `reckon trace "@ + trace_id + "` to expand"@,
        ),
    )
}

pub fn footer(theme: Theme, trace_id: &str) -> (res: (String, String))
    ensures
        (res.0@, res.1@) == footer_spec(theme, trace_id@),
{
    let a = Style::dim().paint(
        theme,
        "synthesized by bob  \u{b7}  granite-code (draft) \u{2192} partner-llm (verify)",
    ).render();
    let mut t = "trace ".to_owned();
    push_str(&mut t, trace_id);
    push_str(&mut t, "    \u{b7}  run `reckon trace ");
    push_str(&mut t, trace_id);
    push_str(&mut t, "` to expand");
    assert(t@ =~= "trace "@ + trace_id@ + "    \u{b7}  run `reckon trace "@ + trace_id@
        + "` to expand"@);
    (a, Style::dim().paint(theme, t.as_str()).render())
}

/// The first index at or after `i` holding `(` or `<`, or `s.len()`.
pub open spec fn find_open(s: Seq<char>, i: int) -> int
    decreases s.len() - i,
{
    if 0 <= i < s.len() && s[i] != '(' && s[i] != '<' {
        find_open(s, i + 1)
    } else {
        i
    }
}

/// The function a source line declares: `def name(` (Python) or
/// `fn name(` / `fn name<` (Rust), after leading whitespace, as `name()`.
pub open spec fn declared_function(line: Seq<char>) -> Option<Seq<char>> {
    let t = trim_start_seq(line);
    if "def "@.is_prefix_of(t) {
        let rest = t.skip(4);
        Some(rest.take(find_char_from(rest, '(', 0)) + "()"@)
    } else if "fn "@.is_prefix_of(t) {
        let rest = t.skip(3);
        Some(rest.take(find_open(rest, 0)) + "()"@)
    } else {
        None
    }
}

/// The nearest declaration among the first `i` lines, searching upwards.
pub open spec fn declared_above(ls: Seq<Seq<char>>, i: int) -> Option<Seq<char>>
    decreases i,
{
    if i <= 0 {
        None
    } else {
        match declared_function(ls[i - 1]) {
            Some(f) => Some(f),
            None => declared_above(ls, i - 1),
        }
    }
}

/// The function enclosing line `line` (1-based) of the source `text`:
/// the nearest declaration at or above it; none for a line out of range.
pub open spec fn function_label_spec(text: Seq<char>, line: int) -> Option<Seq<char>> {
    let ls = lines(text);
    if line == 0 || line > ls.len() {
        None
    } else {
        declared_above(ls, line)
    }
}

proof fn lemma_declared_above(ls: Seq<Seq<char>>, i: int)
    requires
        0 <= i <= ls.len(),
    ensures
        match declared_above(ls, i) {
            Some(f) => exists|j: int|
                0 <= j < i && declared_function(#[trigger] ls[j]) == Some(f) && forall|m: int|
                    j < m < i ==> declared_function(#[trigger] ls[m]) is None,
            None => forall|m: int| 0 <= m < i ==> declared_function(#[trigger] ls[m]) is None,
        },
    decreases i,
{
    if i > 0 {
        lemma_declared_above(ls, i - 1);
        match declared_function(ls[i - 1]) {
            Some(f) => {
                assert(0 <= i - 1 < i && declared_function(ls[i - 1]) == Some(f));
            },
            None => {
                match declared_above(ls, i - 1) {
                    Some(f) => {
                        let j = choose|j: int|
                            0 <= j < i - 1 && declared_function(#[trigger] ls[j]) == Some(f)
                                && forall|m: int| j < m < i - 1 ==> declared_function(#[trigger] ls[m]) is None;
                        assert forall|m: int| j < m < i implies declared_function(#[trigger] ls[m]) is None by {
                            if m == i - 1 {
                            } else {
                                assert(j < m < i - 1);
                            }
                        }
                    },
                    None => {},
                }
            },
        }
    }
}

/// The function `reckon why` names for line `line` (1-based) is the
/// nearest declaration at or above it: it is declared on some line `j` at
/// or above `line`, and no line after `j` up to `line` declares one. No
/// function is named only when no line at or above `line` declares one,
/// or when `line` is not a line of the text.
pub proof fn function_label_is_the_nearest_declaration(text: Seq<char>, line: int)
    ensures
        match function_label_spec(text, line) {
            Some(f) => 1 <= line <= lines(text).len() && exists|j: int|
                0 <= j < line && declared_function(#[trigger] lines(text)[j]) == Some(f) && forall|
                    m: int,
                | j < m < line ==> declared_function(#[trigger] lines(text)[m]) is None,
            None => line < 1 || line > lines(text).len() || forall|m: int|
                0 <= m < line ==> declared_function(#[trigger] lines(text)[m]) is None,
        },
{
    let ls = lines(text);
    if 1 <= line <= ls.len() {
        lemma_declared_above(ls, line);
    }
}

proof fn lemma_find_open(s: Seq<char>, i: int)
    requires
        0 <= i <= s.len(),
    ensures
        i <= find_open(s, i) <= s.len(),
    decreases s.len() - i,
{
    if i < s.len() && s[i] != '(' && s[i] != '<' {
        lemma_find_open(s, i + 1);
    }
}

fn declared(line: &Vec<char>) -> (res: Option<String>)
    ensures
        match res {
            Some(f) => declared_function(line@) == Some(f@),
            None => declared_function(line@) is None,
        },
{
    let mut a: usize = 0;
    while a < line.len() && is_whitespace(line[a])
        invariant
            a <= line.len(),
            skip_ws(line@, 0) == skip_ws(line@, a as int),
        decreases line.len() - a,
    {
        a = a + 1;
    }
    let t = slice_of(line, a, line.len());
    assert(t@ =~= trim_start_seq(line@));
    if starts_with_str(&t, "def ") {
        proof {
            reveal_strlit("def ");
        }
        let rest = slice_of(&t, 4, t.len());
        assert(rest@ =~= t@.skip(4));
        let k = find_char(&rest, '(', 0);
        proof {
            lemma_find_char_from(rest@, '(', 0);
        }
        let mut f = string_of(&slice_of(&rest, 0, k));
        push_str(&mut f, "()");
        assert(f@ =~= rest@.take(k as int) + "()"@);
        Some(f)
    } else if starts_with_str(&t, "fn ") {
        proof {
            reveal_strlit("fn ");
        }
        let rest = slice_of(&t, 3, t.len());
        assert(rest@ =~= t@.skip(3));
        let mut k: usize = 0;
        while k < rest.len() && rest[k] != '(' && rest[k] != '<'
            invariant
                k <= rest.len(),
                find_open(rest@, 0) == find_open(rest@, k as int),
            decreases rest.len() - k,
        {
            k = k + 1;
        }
        let mut f = string_of(&slice_of(&rest, 0, k));
        push_str(&mut f, "()");
        assert(f@ =~= rest@.take(k as int) + "()"@);
        Some(f)
    } else {
        None
    }
}

/// The function enclosing line `line` of the source `text`, as `name()`.
pub fn function_label(text: &str, line: usize) -> (res: Option<String>)
    ensures
        match res {
            Some(f) => function_label_spec(text@, line as int) == Some(f@),
            None => function_label_spec(text@, line as int) is None,
        },
{
    let ls = split_lines(&chars_of(text));
    let ghost lv = views(ls@);
    assert(lv == lines(text@));
    if line == 0 || line > ls.len() {
        return None;
    }
    let mut i = line;
    while i > 0
        invariant
            i <= line <= ls@.len(),
            line > 0,
            lv == views(ls@),
            lv == lines(text@),
            declared_above(lv, line as int) == declared_above(lv, i as int),
        decreases i,
    {
        assert(lv[i - 1] == ls@[i - 1]@);
        match declared(&ls[i - 1]) {
            Some(f) => {
                assert(declared_function(lv[i - 1]) == Some(f@));
                assert(declared_above(lv, i as int) == Some(f@));
                return Some(f);
            },
            None => {},
        }
        i = i - 1;
    }
    None
}

/// `ls` with every line indented by two spaces.
pub open spec fn indented(ls: Seq<Seq<char>>) -> Seq<Seq<char>> {
    ls.map_values(|l: Seq<char>| "  "@ + l)
}

/// A bold section title, indented.
pub open spec fn title_line(theme: Theme, t: Seq<char>) -> Seq<char> {
    "  "@ + painted_text(style_of(true, false, false, None), theme, t)
}

/// The lines of the `reckon why` screen, in order: heading and rule, the
/// evidence row, the explanation wrapped at 56 columns, the decision
/// trail, the sources read (`incidents` counts the issues and the
/// module's postmortems) and the footer.
pub open spec fn why_screen_spec(
    theme: Theme,
    path: Seq<char>,
    start: usize,
    end: usize,
    hint: Seq<char>,
    tier: Seq<char>,
    scar: Option<Postmortem>,
    bundle: ArtifactBundle,
    blame: Seq<BlameLine>,
    incidents: nat,
    ms: nat,
    trace_id: Seq<char>,
) -> Seq<Seq<char>> {
    let (attribution, trace_line) = footer_spec(theme, trace_id);
    seq![
        "  "@ + heading_spec(theme, path, start, end, hint),
        "  "@ + crate::text::repeat('\u{2500}', 58),
        Seq::empty(),
        evidence_row_spec(theme, tier),
        Seq::empty(),
        title_line(theme, "Why this code exists"@),
    ] + indented(crate::cli::style::wrap_spec(why_text_spec(scar, bundle), 56)) + seq![
        Seq::empty(),
        title_line(theme, "Decision trail"@),
    ] + indented(decision_trail_spec(theme, bundle, blame)) + seq![
        Seq::empty(),
        title_line(theme, "Sources read"@),
        "  "@ + sources_line_spec(
            theme,
            bundle.commits@.len(),
            bundle.prs@.len(),
            incidents,
            ms,
        ),
        Seq::empty(),
        "  "@ + attribution,
        "  "@ + trace_line,
    ]
}

fn push_line(out: &mut Vec<String>, s: String, indent: bool)
    ensures
        final(out)@.map_values(|x: String| x@) == old(out)@.map_values(|x: String| x@).push(
            if indent {
                "  "@ + s@
            } else {
                s@
            },
        ),
{
    let mut l = String::new();
    if indent {
        push_str(&mut l, "  ");
    }
    push_str(&mut l, s.as_str());
    let ghost before = out@;
    out.push(l);
    assert(out@.map_values(|x: String| x@) =~= before.map_values(|x: String| x@).push(
        if indent {
            "  "@ + s@
        } else {
            s@
        },
    ));
}

fn push_indented(out: &mut Vec<String>, ls: Vec<String>)
    ensures
        final(out)@.map_values(|x: String| x@) == old(out)@.map_values(|x: String| x@) + indented(
            ls@.map_values(|x: String| x@),
        ),
{
    let ghost start = out@.map_values(|x: String| x@);
    let ghost lv = ls@.map_values(|x: String| x@);
    let mut i: usize = 0;
    while i < ls.len()
        invariant
            i <= ls@.len(),
            lv == ls@.map_values(|x: String| x@),
            out@.map_values(|x: String| x@) == start + indented(lv.take(i as int)),
        decreases ls.len() - i,
    {
        let s = ls[i].clone();
        assert(s@ == lv[i as int]);
        push_line(out, s, true);
        assert(indented(lv.take(i + 1)) =~= indented(lv.take(i as int)).push("  "@ + lv[i as int]));
        i = i + 1;
    }
    assert(lv.take(ls@.len() as int) =~= lv);
}

/// The `reckon why` screen for the gathered facts, one string per line.
pub fn why_screen(
    theme: Theme,
    path: &str,
    start: usize,
    end: usize,
    hint: &str,
    tier: &str,
    scar: Option<&Postmortem>,
    bundle: &ArtifactBundle,
    blame: &Vec<BlameLine>,
    postmortems: usize,
    elapsed_ms: u64,
    trace_id: &str,
) -> (res: Vec<String>)
    requires
        bundle.issues@.len() + postmortems <= usize::MAX,
    ensures
        res@.map_values(|s: String| s@) == why_screen_spec(
            theme,
            path@,
            start,
            end,
            hint@,
            tier@,
            match scar {
                Some(p) => Some(*p),
                None => None,
            },
            *bundle,
            blame@,
            (bundle.issues@.len() + postmortems) as nat,
            elapsed_ms as nat,
            trace_id@,
        ),
{
    let mut out: Vec<String> = Vec::new();
    push_line(&mut out, heading(theme, path, start, end, hint), true);
    push_line(&mut out, rule(58), true);
    push_line(&mut out, String::new(), false);
    push_line(&mut out, evidence_row(theme, tier), false);
    push_line(&mut out, String::new(), false);
    push_line(&mut out, Style::bold().paint(theme, "Why this code exists").render(), true);
    push_indented(&mut out, crate::cli::style::wrap(why_text(scar, bundle).as_str(), 56));
    push_line(&mut out, String::new(), false);
    push_line(&mut out, Style::bold().paint(theme, "Decision trail").render(), true);
    push_indented(&mut out, decision_trail(theme, bundle, blame));
    push_line(&mut out, String::new(), false);
    push_line(&mut out, Style::bold().paint(theme, "Sources read").render(), true);
    let incidents = bundle.issues.len() + postmortems;
    push_line(
        &mut out,
        sources_line(theme, bundle.commits.len(), bundle.prs.len(), incidents, elapsed_ms),
        true,
    );
    push_line(&mut out, String::new(), false);
    let (attribution, trace_line) = footer(theme, trace_id);
    push_line(&mut out, attribution, true);
    push_line(&mut out, trace_line, true);
    let ghost want = why_screen_spec(
        theme,
        path@,
        start,
        end,
        hint@,
        tier@,
        match scar {
            Some(p) => Some(*p),
            None => None,
        },
        *bundle,
        blame@,
        (bundle.issues@.len() + postmortems) as nat,
        elapsed_ms as nat,
        trace_id@,
    );
    assert(out@.map_values(|s: String| s@) =~= want);
    out
}

} // verus!
