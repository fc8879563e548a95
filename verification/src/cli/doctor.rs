//! `reckon doctor`: the verdict of each preflight check, the row printed
//! for it, and the overall verdict with its exit status.

use vstd::prelude::*;
use crate::cli::style::{painted_text, style_of, Style, Theme};
use crate::cli::wordmark::{standalone, standalone_spec};
use crate::number::{decimal, push_usize};
use crate::text::{chars_of, pad_right, pad_to, push_str, seq_eq};

verus! {

pub struct DoctorArgs {
    pub no_color: bool,
}

#[derive(Debug, Clone, Copy, PartialEq, Eq, Structural)]
pub enum Verdict {
    Pass,
    Warn,
    Fail,
}

pub open spec fn paint(bold: bool, dim: bool, fg: Option<u8>, theme: Theme, s: Seq<char>) -> Seq<char> {
    painted_text(style_of(bold, dim, false, fg), theme, s)
}

/// The heading.
pub fn heading(theme: Theme) -> (res: String)
    ensures
        res@ == "  "@ + standalone_spec(theme) + " \u{b7} "@ + paint(false, false, None, theme, "doctor"@),
{
    let mut s = "  ".to_owned();
    push_str(&mut s, standalone(theme).as_str());
    push_str(&mut s, " \u{b7} ");
    push_str(&mut s, Style::default().paint(theme, "doctor").render().as_str());
    s
}

pub open spec fn mark_spec(theme: Theme, v: Verdict) -> Seq<char> {
    match v {
        Verdict::Pass => paint(false, false, Some(71u8), theme, "\u{2713}"@),
        Verdict::Warn => paint(false, false, Some(172u8), theme, "\u{b7}"@),
        Verdict::Fail => paint(true, false, Some(172u8), theme, "\u{2717}"@),
    }
}

pub open spec fn value_spec(theme: Theme, v: Verdict, value: Seq<char>) -> Seq<char> {
    match v {
        Verdict::Pass => paint(false, false, None, theme, value),
        Verdict::Warn => paint(false, true, None, theme, value),
        Verdict::Fail => paint(false, false, Some(172u8), theme, value),
    }
}

/// The lines of one check: its mark, label (padded to 22 columns) and
/// value; then, unless it passed, how to fix it.
pub open spec fn row_spec(theme: Theme, v: Verdict, label: Seq<char>, value: Seq<char>, fix: Seq<char>) -> Seq<
    Seq<char>,
> {
    let first = "  "@ + mark_spec(theme, v) + " "@ + pad_right(label, 22) + "  "@ + value_spec(
        theme,
        v,
        value,
    );
    if v == Verdict::Pass {
        seq![first]
    } else {
        seq![first, "       "@ + paint(false, true, None, theme, "\u{2192} "@ + fix)]
    }
}

pub fn row(theme: Theme, v: Verdict, label: &str, value: &str, fix: &str) -> (res: Vec<String>)
    ensures
        res@.map_values(|s: String| s@) == row_spec(theme, v, label@, value@, fix@),
{
    let mark = match v {
        Verdict::Pass => Style::green().paint(theme, "\u{2713}").render(),
        Verdict::Warn => Style::amber().paint(theme, "\u{b7}").render(),
        Verdict::Fail => Style::amber_bold().paint(theme, "\u{2717}").render(),
    };
    let val = match v {
        Verdict::Pass => Style::default().paint(theme, value).render(),
        Verdict::Warn => Style::dim().paint(theme, value).render(),
        Verdict::Fail => Style::amber().paint(theme, value).render(),
    };
    let mut first = "  ".to_owned();
    push_str(&mut first, mark.as_str());
    push_str(&mut first, " ");
    push_str(&mut first, pad_to(label, 22).as_str());
    push_str(&mut first, "  ");
    push_str(&mut first, val.as_str());
    let mut out: Vec<String> = Vec::new();
    out.push(first);
    if v != Verdict::Pass {
        let mut f = "\u{2192} ".to_owned();
        push_str(&mut f, fix);
        let mut second = "       ".to_owned();
        push_str(&mut second, Style::dim().paint(theme, f.as_str()).render().as_str());
        out.push(second);
    }
    assert(out@.map_values(|s: String| s@) =~= row_spec(theme, v, label@, value@, fix@));
    out
}

/// How many memoirs were found.
pub fn memoir_count_label(n: usize) -> (res: String)
    ensures
        res@ == if n == 0 {
            "none yet"@
        } else {
            decimal(n as nat) + " found"@
        },
{
    if n == 0 {
        "none yet".to_owned()
    } else {
        let mut s = String::new();
        push_usize(&mut s, n);
        push_str(&mut s, " found");
        s
    }
}

/// Which MCP host configuration was found, and where.
pub fn host_label(found: Option<(&str, &str)>) -> (res: String)
    ensures
        res@ == match found {
            Some((name, path)) => name@ + " ("@ + path@ + ")"@,
            None => "not detected"@,
        },
{
    match found {
        Some((name, path)) => {
            let mut s = name.to_owned();
            push_str(&mut s, " (");
            push_str(&mut s, path);
            push_str(&mut s, ")");
            s
        },
        None => "not detected".to_owned(),
    }
}

/// Directories the search for memoirs does not enter.
pub open spec fn skipped_dir_spec(name: Seq<char>) -> bool {
    name == ".git"@ || name == "target"@ || name == ".reckon"@ || name == "node_modules"@
}

fn is(s: &str, lit: &str) -> (res: bool)
    ensures
        res == (s@ == lit@),
{
    seq_eq(&chars_of(s), &chars_of(lit))
}

pub fn skipped_dir(name: &str) -> (res: bool)
    ensures
        res == skipped_dir_spec(name@),
{
    is(name, ".git") || is(name, "target") || is(name, ".reckon") || is(name, "node_modules")
}

/// The closing line and the exit status: 1 when a check failed, else 0
/// (ready with notes when one only warned).
pub open spec fn summary_spec(theme: Theme, any_fail: bool, any_warn: bool) -> (Seq<char>, i32) {
    if any_fail {
        (
            "  "@ + paint(true, false, Some(172u8), theme, "\u{2717}"@) + " "@ + paint(
                true,
                false,
                None,
                theme,
                "failing checks above \u{2014} Reckon won't work until fixed"@,
            ),
            1,
        )
    } else if any_warn {
        (
            "  "@ + paint(false, false, Some(172u8), theme, "\u{b7}"@) + " "@ + paint(
                false,
                false,
                None,
                theme,
                "ready, with notes"@,
            ),
            0,
        )
    } else {
        (
            "  "@ + paint(false, false, Some(71u8), theme, "\u{2713}"@) + " "@ + paint(
                true,
                false,
                None,
                theme,
                "all systems go"@,
            ),
            0,
        )
    }
}

pub fn summary(theme: Theme, any_fail: bool, any_warn: bool) -> (res: (String, i32))
    ensures
        (res.0@, res.1) == summary_spec(theme, any_fail, any_warn),
{
    let mut s = "  ".to_owned();
    if any_fail {
        push_str(&mut s, Style::amber_bold().paint(theme, "\u{2717}").render().as_str());
        push_str(&mut s, " ");
        push_str(
            &mut s,
            Style::bold().paint(
                theme,
                "failing checks above \u{2014} Reckon won't work until fixed",
            ).render().as_str(),
        );
        assert(s@ =~= summary_spec(theme, any_fail, any_warn).0);
        (s, 1)
    } else if any_warn {
        push_str(&mut s, Style::amber().paint(theme, "\u{b7}").render().as_str());
        push_str(&mut s, " ");
        push_str(&mut s, Style::default().paint(theme, "ready, with notes").render().as_str());
        assert(s@ =~= summary_spec(theme, any_fail, any_warn).0);
        (s, 0)
    } else {
        push_str(&mut s, Style::green().paint(theme, "\u{2713}").render().as_str());
        push_str(&mut s, " ");
        push_str(&mut s, Style::bold().paint(theme, "all systems go").render().as_str());
        assert(s@ =~= summary_spec(theme, any_fail, any_warn).0);
        (s, 0)
    }
}

} // verus!
