//! `reckon check`: the all-clear line, and for each tripwire a diff
//! trips, the warning card (with the interactive actions, or the one-line
//! summary for CI).

use vstd::prelude::*;
use crate::cli::style::{painted_text, style_of, warning_box, warning_box_spec, wrap, wrap_spec, Style, Theme};
use crate::cli::wordmark::{standalone, standalone_spec};
use crate::number::{decimal, push_usize};
use crate::text::{
    chars_of, lines, lowercase, lowercase_spec, pieces, push_str, split_lines, split_str, string_of,
    trim, trim_seq, trim_to, trim_to_spec, views,
};
use crate::tripwire::Warning;

verus! {

pub struct CheckArgs {
    /// Read the diff from this file instead of the staged changes.
    pub diff_path: Option<String>,
    /// Non-interactive output for CI logs.
    pub ci: bool,
    pub no_color: bool,
}

pub open spec fn paint(bold: bool, dim: bool, italic: bool, fg: Option<u8>, theme: Theme, s: Seq<char>) -> Seq<char> {
    painted_text(style_of(bold, dim, italic, fg), theme, s)
}

/// Whether a diff holds nothing but whitespace (nothing staged).
pub fn is_blank(diff: &str) -> (res: bool)
    ensures
        res == (trim_seq(diff@).len() == 0),
{
    trim(&chars_of(diff)).len() == 0
}

/// Exit status of `reckon check`: 1 when a tripwire was triggered.
pub fn exit_code(warnings: usize) -> (res: i32)
    ensures
        res == (if warnings == 0 {
            0i32
        } else {
            1i32
        }),
{
    if warnings == 0 {
        0
    } else {
        1
    }
}

/// The all-clear line.
pub open spec fn clear_line_spec(theme: Theme) -> Seq<char> {
    "  "@ + paint(false, false, false, Some(71u8), theme, "\u{2713}"@) + " "@ + standalone_spec(theme)
        + "  "@ + paint(false, false, false, None, theme, "no tripwires triggered"@)
}

pub fn clear_line(theme: Theme) -> (res: String)
    ensures
        res@ == clear_line_spec(theme),
{
    let mut s = "  ".to_owned();
    push_str(&mut s, Style::green().paint(theme, "\u{2713}").render().as_str());
    push_str(&mut s, " ");
    push_str(&mut s, standalone(theme).as_str());
    push_str(&mut s, "  ");
    push_str(&mut s, Style::default().paint(theme, "no tripwires triggered").render().as_str());
    assert(s@ =~= clear_line_spec(theme));
    s
}

/// The banner above the warning cards.
pub open spec fn banner_spec(theme: Theme) -> Seq<char> {
    "  "@ + paint(true, false, false, Some(172u8), theme, "\u{26a0}"@) + "  "@ + standalone_spec(theme)
        + " \u{b7} "@ + paint(true, false, false, Some(172u8), theme, "tripwire triggered"@)
}

pub fn banner(theme: Theme) -> (res: String)
    ensures
        res@ == banner_spec(theme),
{
    let mut s = "  ".to_owned();
    push_str(&mut s, Style::amber_bold().paint(theme, "\u{26a0}").render().as_str());
    push_str(&mut s, "  ");
    push_str(&mut s, standalone(theme).as_str());
    push_str(&mut s, " \u{b7} ");
    push_str(&mut s, Style::amber_bold().paint(theme, "tripwire triggered").render().as_str());
    assert(s@ =~= banner_spec(theme));
    s
}

/// The actions offered after the cards (the cursor stays on this line).
pub open spec fn actions_spec(theme: Theme) -> Seq<char> {
    "  "@ + paint(true, false, false, None, theme, "[r] revert this hunk"@) + "    "@ + paint(
        false,
        false,
        false,
        None,
        theme,
        "[a] acknowledge and continue"@,
    ) + "    "@ + paint(false, true, false, None, theme, "[?] trace"@) + " "@
}

pub fn actions(theme: Theme) -> (res: String)
    ensures
        res@ == actions_spec(theme),
{
    let mut s = "  ".to_owned();
    push_str(&mut s, Style::bold().paint(theme, "[r] revert this hunk").render().as_str());
    push_str(&mut s, "    ");
    push_str(
        &mut s,
        Style::default().paint(theme, "[a] acknowledge and continue").render().as_str(),
    );
    push_str(&mut s, "    ");
    push_str(&mut s, Style::dim().paint(theme, "[?] trace").render().as_str());
    push_str(&mut s, " ");
    assert(s@ =~= actions_spec(theme));
    s
}

/// The lines answering the choice typed at the actions prompt (trimmed,
/// case-insensitive).
pub open spec fn reply_spec(theme: Theme, input: Seq<char>) -> Seq<Seq<char>> {
    let choice = lowercase_spec(trim_seq(input));
    let arrow = paint(false, true, false, None, theme, "\u{2192}"@);
    let warn = paint(true, false, false, Some(172u8), theme, "\u{26a0}"@);
    if choice == "r"@ {
        seq!["  "@ + arrow + " Reverting hunk..."@, "  "@ + warn + " Feature not yet implemented"@]
    } else if choice == "a"@ {
        seq!["  "@ + arrow + " Acknowledged. Continuing..."@]
    } else if choice == "?"@ {
        seq!["  "@ + arrow + " Trace feature not yet implemented"@]
    } else {
        seq!["  "@ + warn + " Invalid choice. Please use 'r', 'a', or '?'"@]
    }
}

fn line2(head: &str, a: &str, b: &str) -> (res: String)
    ensures
        res@ == head@ + a@ + b@,
{
    let mut s = head.to_owned();
    push_str(&mut s, a);
    push_str(&mut s, b);
    s
}

pub fn reply(theme: Theme, input: &str) -> (res: Vec<String>)
    ensures
        res@.map_values(|s: String| s@) == reply_spec(theme, input@),
{
    let t = string_of(&trim(&chars_of(input)));
    let choice = lowercase(t.as_str());
    let arrow = Style::dim().paint(theme, "\u{2192}").render();
    let warn = Style::amber_bold().paint(theme, "\u{26a0}").render();
    let cv = chars_of(choice.as_str());
    let mut out: Vec<String> = Vec::new();
    if crate::text::seq_eq(&cv, &chars_of("r")) {
        out.push(line2("  ", arrow.as_str(), " Reverting hunk..."));
        out.push(line2("  ", warn.as_str(), " Feature not yet implemented"));
    } else if crate::text::seq_eq(&cv, &chars_of("a")) {
        out.push(line2("  ", arrow.as_str(), " Acknowledged. Continuing..."));
    } else if crate::text::seq_eq(&cv, &chars_of("?")) {
        out.push(line2("  ", arrow.as_str(), " Trace feature not yet implemented"));
    } else {
        out.push(line2("  ", warn.as_str(), " Invalid choice. Please use 'r', 'a', or '?'"));
    }
    assert(out@.map_values(|s: String| s@) =~= reply_spec(theme, input@));
    out
}

/// The incidents of the warnings, joined by `, `.
pub open spec fn joined_incidents(ws: Seq<Warning>, k: int) -> Seq<char>
    decreases k,
{
    if k <= 0 {
        Seq::empty()
    } else if k == 1 {
        ws[0].incident@
    } else {
        joined_incidents(ws, k - 1) + ", "@ + ws[k - 1].incident@
    }
}

/// The one-line CI summary after the cards.
pub open spec fn ci_summary_spec(theme: Theme, ws: Seq<Warning>) -> Seq<char> {
    "  "@ + paint(true, false, false, Some(172u8), theme, "\u{26a0}"@) + " "@ + standalone_spec(theme)
        + " \u{b7} "@ + paint(true, false, false, Some(172u8), theme, "tripwire triggered"@)
        + " \u{b7} "@ + paint(false, false, false, None, theme, joined_incidents(ws, ws.len() as int))
        + " \u{b7} exiting with code 1"@
}

pub fn ci_summary(theme: Theme, warnings: &Vec<Warning>) -> (res: String)
    ensures
        res@ == ci_summary_spec(theme, warnings@),
{
    let mut ids = String::new();
    let mut i: usize = 0;
    while i < warnings.len()
        invariant
            i <= warnings@.len(),
            ids@ == joined_incidents(warnings@, i as int),
        decreases warnings.len() - i,
    {
        if i > 0 {
            push_str(&mut ids, ", ");
        }
        push_str(&mut ids, warnings[i].incident.as_str());
        assert(ids@ =~= joined_incidents(warnings@, i + 1));
        i = i + 1;
    }
    let mut s = "  ".to_owned();
    push_str(&mut s, Style::amber_bold().paint(theme, "\u{26a0}").render().as_str());
    push_str(&mut s, " ");
    push_str(&mut s, standalone(theme).as_str());
    push_str(&mut s, " \u{b7} ");
    push_str(&mut s, Style::amber_bold().paint(theme, "tripwire triggered").render().as_str());
    push_str(&mut s, " \u{b7} ");
    push_str(&mut s, Style::default().paint(theme, ids.as_str()).render().as_str());
    push_str(&mut s, " \u{b7} exiting with code 1");
    assert(s@ =~= ci_summary_spec(theme, warnings@));
    s
}

/// The quote's lead before its first `—`, trimmed and kept to `max`
/// characters.
pub open spec fn summarize_quote_spec(s: Seq<char>, max: int) -> Seq<char> {
    trim_to_spec(trim_seq(pieces(s, "\u{2014}"@)[0]), max)
}

pub fn summarize_quote(s: &str, max: usize) -> (res: String)
    ensures
        res@ == summarize_quote_spec(s@, max as int),
{
    let ps = split_str(&chars_of(s), "\u{2014}");
    proof {
        reveal_strlit("\u{2014}");
        crate::text::lemma_pieces_nonempty(s@, "\u{2014}"@);
    }
    let ghost pv = views(ps@);
    assert(pv[0] == ps@[0]@);
    let first = string_of(&trim(&ps[0]));
    trim_to(first.as_str(), max)
}

/// Lines of `ls`, each indented by two spaces and ended by a newline.
pub open spec fn indented(ls: Seq<Seq<char>>, k: int) -> Seq<char>
    decreases k,
{
    if k <= 0 {
        Seq::empty()
    } else {
        indented(ls, k - 1) + "  "@ + ls[k - 1] + "\n"@
    }
}

/// The body lines of a warning's box: the memoir quote wrapped to 54
/// columns, a blank line and where the postmortem is.
pub open spec fn box_lines_spec(w: Warning) -> Seq<Seq<char>> {
    wrap_spec(w.memoir_quote@, 54) + seq![Seq::empty(), "See: postmortems/"@ + w.incident@ + ".md"@]
}

/// The card for one warning: what the diff removes, the warning box, the
/// guarding test and where the tripwire is recorded.
pub open spec fn card_spec(theme: Theme, w: Warning) -> Seq<char> {
    let intro = "Your staged diff removes lines "@ + decimal(w.removed_range[0] as nat) + "\u{2013}"@
        + decimal(w.removed_range[1] as nat) + " of "@ + w.file@
        + ".\n  This region is protected by a past incident fix."@;
    let title = w.incident@ + " \u{b7} "@ + summarize_quote_spec(w.memoir_quote@, 56);
    indented(lines(intro), lines(intro).len() as int) + "\n"@ + warning_box_spec(theme, title, box_lines_spec(w))
        + "\n"@ + "  "@ + paint(false, true, false, None, theme, "Guarding test"@) + "\n"@ + "  "@
        + paint(true, false, false, None, theme, w.guarding_test@) + "\n"@ + "  "@ + paint(
        false,
        false,
        false,
        None,
        theme,
        w.test_assertion@,
    ) + "\n"@ + "\n"@ + "  "@ + paint(false, true, false, None, theme, "memoir"@) + "   "@ + paint(
        false,
        true,
        false,
        None,
        theme,
        "MEMOIR.md"@,
    ) + " \u{b7} tripwire "@ + paint(false, true, false, None, theme, w.tripwire_id@) + "\n"@ + "  "@
        + paint(false, true, false, None, theme, "context"@) + "  "@ + paint(
        false,
        true,
        false,
        None,
        theme,
        "loaded from bob \u{b7} synthesized by bob"@,
    ) + "\n"@ + "\n"@
}

fn intro_text(w: &Warning) -> (res: String)
    ensures
        res@ == indented(
            lines(
                "Your staged diff removes lines "@ + decimal(w.removed_range[0] as nat) + "\u{2013}"@
                    + decimal(w.removed_range[1] as nat) + " of "@ + w.file@
                    + ".\n  This region is protected by a past incident fix."@,
            ),
            lines(
                "Your staged diff removes lines "@ + decimal(w.removed_range[0] as nat) + "\u{2013}"@
                    + decimal(w.removed_range[1] as nat) + " of "@ + w.file@
                    + ".\n  This region is protected by a past incident fix."@,
            ).len() as int,
        ),
{
    let mut intro = "Your staged diff removes lines ".to_owned();
    push_usize(&mut intro, w.removed_range[0]);
    push_str(&mut intro, "\u{2013}");
    push_usize(&mut intro, w.removed_range[1]);
    push_str(&mut intro, " of ");
    push_str(&mut intro, w.file.as_str());
    push_str(&mut intro, ".\n  This region is protected by a past incident fix.");
    let ls = split_lines(&chars_of(intro.as_str()));
    let ghost lv = views(ls@);
    let mut out = String::new();
    let mut i: usize = 0;
    while i < ls.len()
        invariant
            i <= ls@.len(),
            lv == views(ls@),
            out@ == indented(lv, i as int),
        decreases ls.len() - i,
    {
        push_str(&mut out, "  ");
        crate::text::push_chars(&mut out, &ls[i]);
        push_str(&mut out, "\n");
        assert(lv[i as int] == ls@[i as int]@);
        assert(out@ =~= indented(lv, i + 1));
        i = i + 1;
    }
    out
}

/// The body lines of the warning box of `w`.
pub fn box_lines(w: &Warning) -> (res: Vec<String>)
    ensures
        res@.map_values(|s: String| s@) == box_lines_spec(*w),
{
    let mut body = wrap(w.memoir_quote.as_str(), 54);
    let ghost wv = body@.map_values(|s: String| s@);
    body.push(String::new());
    let mut see = "See: postmortems/".to_owned();
    push_str(&mut see, w.incident.as_str());
    push_str(&mut see, ".md");
    body.push(see);
    assert(body@.map_values(|s: String| s@) =~= box_lines_spec(*w));
    body
}

/// The card printed for warning `w`.
pub fn card(theme: Theme, w: &Warning) -> (res: String)
    requires
        w.incident@.len() + 65 <= usize::MAX,
    ensures
        res@ == card_spec(theme, *w),
{
    let mut s = intro_text(w);
    push_str(&mut s, "\n");
    let mut title = w.incident.clone();
    push_str(&mut title, " \u{b7} ");
    let q = summarize_quote(w.memoir_quote.as_str(), 56);
    push_str(&mut title, q.as_str());
    let body = box_lines(w);
    proof {
        reveal_strlit(" \u{b7} ");
        assert(title@ =~= w.incident@ + " \u{b7} "@ + q@);
        assert(title@.len() <= w.incident@.len() + 3 + 56) by {
            assert(q@.len() <= 56);
        }
    }
    let bx = warning_box(theme, title.as_str(), body.as_slice());
    push_str(&mut s, bx.as_str());
    push_str(&mut s, "\n");
    push_str(&mut s, "  ");
    push_str(&mut s, Style::dim().paint(theme, "Guarding test").render().as_str());
    push_str(&mut s, "\n");
    push_str(&mut s, "  ");
    push_str(&mut s, Style::bold().paint(theme, w.guarding_test.as_str()).render().as_str());
    push_str(&mut s, "\n");
    push_str(&mut s, "  ");
    push_str(&mut s, Style::default().paint(theme, w.test_assertion.as_str()).render().as_str());
    push_str(&mut s, "\n");
    push_str(&mut s, "\n");
    push_str(&mut s, "  ");
    push_str(&mut s, Style::dim().paint(theme, "memoir").render().as_str());
    push_str(&mut s, "   ");
    push_str(&mut s, Style::dim().paint(theme, "MEMOIR.md").render().as_str());
    push_str(&mut s, " \u{b7} tripwire ");
    push_str(&mut s, Style::dim().paint(theme, w.tripwire_id.as_str()).render().as_str());
    push_str(&mut s, "\n");
    push_str(&mut s, "  ");
    push_str(&mut s, Style::dim().paint(theme, "context").render().as_str());
    push_str(&mut s, "  ");
    push_str(
        &mut s,
        Style::dim().paint(theme, "loaded from bob \u{b7} synthesized by bob").render().as_str(),
    );
    push_str(&mut s, "\n");
    push_str(&mut s, "\n");
    assert(s@ =~= card_spec(theme, *w));
    s
}

} // verus!
