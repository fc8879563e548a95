//! `reckon memoir <path>`: the progressive step list while a memoir is
//! regenerated, and the lines reporting the result (or, with `--auto`
//! from the post-commit hook, a single summary line).

use vstd::prelude::*;
use crate::cli::style::{painted_text, style_of, Style, Theme};
use crate::cli::wordmark::{standalone, standalone_spec};
use crate::number::{decimal, push_usize};
use crate::text::{capitalize, capitalize_spec, push_str};
use crate::Error;

verus! {

pub struct MemoirArgs {
    pub path: String,
    pub regen: bool,
    pub no_color: bool,
    /// A single summary line instead of the step list (the post-commit
    /// hook's mode).
    pub auto: bool,
}

pub open spec fn paint(bold: bool, dim: bool, italic: bool, fg: Option<u8>, theme: Theme, s: Seq<char>) -> Seq<char> {
    painted_text(style_of(bold, dim, italic, fg), theme, s)
}

/// The steps shown while a memoir is generated.
pub open spec fn steps_spec() -> Seq<Seq<char>> {
    seq![
        "loading repo context from bob"@,
        "indexing commits"@,
        "fetching linked PRs"@,
        "searching postmortems"@,
        "bob synthesizing memoir sections"@,
        "bob cross-checking evidence tier"@,
        "extracting tripwires"@,
        "writing memoir"@,
    ]
}

pub fn steps() -> (res: Vec<String>)
    ensures
        res@.map_values(|s: String| s@) == steps_spec(),
{
    let mut v: Vec<String> = Vec::new();
    v.push("loading repo context from bob".to_owned());
    v.push("indexing commits".to_owned());
    v.push("fetching linked PRs".to_owned());
    v.push("searching postmortems".to_owned());
    v.push("bob synthesizing memoir sections".to_owned());
    v.push("bob cross-checking evidence tier".to_owned());
    v.push("extracting tripwires".to_owned());
    v.push("writing memoir".to_owned());
    assert(v@.map_values(|s: String| s@) =~= steps_spec());
    v
}

/// The heading: wordmark, what is happening and the module.
pub open spec fn heading_spec(theme: Theme, module: Seq<char>) -> Seq<char> {
    "  "@ + standalone_spec(theme) + " \u{b7} "@ + paint(false, false, false, None, theme, "generating memoir"@)
        + " \u{b7} "@ + paint(false, true, false, None, theme, module)
}

pub fn heading(theme: Theme, module: &str) -> (res: String)
    ensures
        res@ == heading_spec(theme, module@),
{
    let mut s = "  ".to_owned();
    push_str(&mut s, standalone(theme).as_str());
    push_str(&mut s, " \u{b7} ");
    push_str(&mut s, Style::default().paint(theme, "generating memoir").render().as_str());
    push_str(&mut s, " \u{b7} ");
    push_str(&mut s, Style::dim().paint(theme, module).render().as_str());
    assert(s@ =~= heading_spec(theme, module@));
    s
}

/// A step not yet done.
pub open spec fn pending_spec(theme: Theme, step: Seq<char>) -> Seq<char> {
    "  "@ + paint(false, true, false, None, theme, "\u{b7}"@) + "  "@ + paint(false, true, false, None, theme, step)
}

pub fn pending(theme: Theme, step: &str) -> (res: String)
    ensures
        res@ == pending_spec(theme, step@),
{
    let mut s = "  ".to_owned();
    push_str(&mut s, Style::dim().paint(theme, "\u{b7}").render().as_str());
    push_str(&mut s, "  ");
    push_str(&mut s, Style::dim().paint(theme, step).render().as_str());
    assert(s@ =~= pending_spec(theme, step@));
    s
}

/// What flips step `idx` of `total` to done in place: the cursor moves up
/// to its line, the line is rewritten with a check mark and the cursor
/// moves back down. Nothing without colour.
pub open spec fn done_spec(theme: Theme, total: nat, idx: nat, step: Seq<char>) -> Seq<char> {
    if !theme.color {
        Seq::empty()
    } else {
        let up = decimal((total - idx) as nat);
        "\x1b["@ + up + "A\r"@ + "  "@ + paint(false, false, false, Some(71u8), theme, "\u{2713}"@) + "  "@
            + paint(false, true, false, None, theme, step) + "\x1b["@ + up + "B\r"@
    }
}

pub fn done(theme: Theme, total: usize, idx: usize, step: &str) -> (res: String)
    requires
        idx < total,
    ensures
        res@ == done_spec(theme, total as nat, idx as nat, step@),
{
    if !theme.color {
        return String::new();
    }
    let up = total - idx;
    let mut s = "\x1b[".to_owned();
    push_usize(&mut s, up);
    push_str(&mut s, "A\r");
    push_str(&mut s, "  ");
    push_str(&mut s, Style::green().paint(theme, "\u{2713}").render().as_str());
    push_str(&mut s, "  ");
    push_str(&mut s, Style::dim().paint(theme, step).render().as_str());
    push_str(&mut s, "\x1b[");
    push_usize(&mut s, up);
    push_str(&mut s, "B\r");
    assert(s@ =~= done_spec(theme, total as nat, idx as nat, step@));
    s
}

/// The stats of a regenerated memoir: decisions shown (at most eight),
/// scars, tripwires and the evidence tier.
pub open spec fn stats_spec(commits: nat, scars: nat, tripwires: nat, tier: Seq<char>) -> Seq<char> {
    decimal(if commits < 8 {
        commits
    } else {
        8
    }) + " decisions \u{b7} "@ + decimal(scars) + " "@ + (if scars == 1 {
        "scar"@
    } else {
        "scars"@
    }) + " \u{b7} "@ + decimal(tripwires) + " "@ + (if tripwires == 1 {
        "tripwire"@
    } else {
        "tripwires"@
    }) + " \u{b7} evidence: "@ + capitalize_spec(tier)
}

pub fn stats(commits: usize, scars: usize, tripwires: usize, tier: &str) -> (res: String)
    ensures
        res@ == stats_spec(commits as nat, scars as nat, tripwires as nat, tier@),
{
    let mut s = String::new();
    push_usize(
        &mut s,
        if commits < 8 {
            commits
        } else {
            8
        },
    );
    push_str(&mut s, " decisions \u{b7} ");
    push_usize(&mut s, scars);
    push_str(&mut s, " ");
    push_str(
        &mut s,
        if scars == 1 {
            "scar"
        } else {
            "scars"
        },
    );
    push_str(&mut s, " \u{b7} ");
    push_usize(&mut s, tripwires);
    push_str(&mut s, " ");
    push_str(
        &mut s,
        if tripwires == 1 {
            "tripwire"
        } else {
            "tripwires"
        },
    );
    push_str(&mut s, " \u{b7} evidence: ");
    push_str(&mut s, capitalize(tier).as_str());
    assert(s@ =~= stats_spec(commits as nat, scars as nat, tripwires as nat, tier@));
    s
}

/// The line reporting where the memoir was written.
pub open spec fn written_spec(theme: Theme, module: Seq<char>) -> Seq<char> {
    "  "@ + paint(false, false, false, Some(71u8), theme, "\u{2713}"@) + " "@ + paint(
        true,
        false,
        false,
        None,
        theme,
        module + "/MEMOIR.md"@,
    ) + "  "@ + paint(false, false, false, None, theme, "written"@)
}

pub fn written(theme: Theme, module: &str) -> (res: String)
    ensures
        res@ == written_spec(theme, module@),
{
    let mut file = module.to_owned();
    push_str(&mut file, "/MEMOIR.md");
    let mut s = "  ".to_owned();
    push_str(&mut s, Style::green().paint(theme, "\u{2713}").render().as_str());
    push_str(&mut s, " ");
    push_str(&mut s, Style::bold().paint(theme, file.as_str()).render().as_str());
    push_str(&mut s, "  ");
    push_str(&mut s, Style::default().paint(theme, "written").render().as_str());
    assert(s@ =~= written_spec(theme, module@));
    s
}

/// The closing note.
pub fn closing(theme: Theme) -> (res: String)
    ensures
        res@ == "  "@ + paint(
            false,
            true,
            true,
            None,
            theme,
            "synthesized by bob \u{b7} commit this file alongside your code."@,
        ),
{
    let mut s = "  ".to_owned();
    push_str(
        &mut s,
        Style::dim_italic().paint(
            theme,
            "synthesized by bob \u{b7} commit this file alongside your code.",
        ).render().as_str(),
    );
    s
}

/// The single line of `--auto` mode.
pub open spec fn auto_line_spec(theme: Theme, module: Seq<char>, tripwires: nat, tier: Seq<char>) -> Seq<char> {
    "  "@ + paint(false, false, false, Some(71u8), theme, "\u{2713}"@) + " "@ + paint(
        false,
        true,
        false,
        None,
        theme,
        "memoir updated for "@ + module + ": "@ + decimal(tripwires) + " tripwire(s), tier "@ + tier,
    )
}

pub fn auto_line(theme: Theme, module: &str, tripwires: usize, tier: &str) -> (res: String)
    ensures
        res@ == auto_line_spec(theme, module@, tripwires as nat, tier@),
{
    let mut t = "memoir updated for ".to_owned();
    push_str(&mut t, module);
    push_str(&mut t, ": ");
    push_usize(&mut t, tripwires);
    push_str(&mut t, " tripwire(s), tier ");
    push_str(&mut t, tier);
    let mut s = "  ".to_owned();
    push_str(&mut s, Style::green().paint(theme, "\u{2713}").render().as_str());
    push_str(&mut s, " ");
    push_str(&mut s, Style::dim().paint(theme, t.as_str()).render().as_str());
    assert(s@ =~= auto_line_spec(theme, module@, tripwires as nat, tier@));
    s
}

/// The error when a memoir cannot be read back after it was written.
pub fn vanished(module: &str) -> (res: Error)
    ensures
        res matches Error::Other(m) && m@ == "memoir disappeared after update at "@ + module@,
{
    let mut m = "memoir disappeared after update at ".to_owned();
    push_str(&mut m, module);
    Error::Other(m)
}

} // verus!
