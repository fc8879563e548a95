//! The `reckon` wordmark: standalone (`reckon`) or paired with bob
//! (`reckon · for bob`, the trailing fragment dimmed). Always lowercase.

use vstd::prelude::*;
use crate::cli::style::{painted_text, style_of, Style, Theme};
use crate::text::push_str;

verus! {

/// The standalone wordmark: `reckon` in bold amber.
pub open spec fn standalone_spec(theme: Theme) -> Seq<char> {
    painted_text(style_of(true, false, false, Some(172u8)), theme, "reckon"@)
}

pub fn standalone(theme: Theme) -> (res: String)
    ensures
        res@ == standalone_spec(theme),
{
    Style::amber_bold().paint(theme, "reckon").render()
}

pub fn for_bob(theme: Theme) -> (res: String)
    ensures
        res@ == painted_text(style_of(true, false, false, Some(172u8)), theme, "reckon"@)
            + painted_text(style_of(false, true, false, None), theme, " \u{b7} for bob"@),
{
    let mut head = Style::amber_bold().paint(theme, "reckon").render();
    let tail = Style::dim().paint(theme, " \u{b7} for bob").render();
    push_str(&mut head, tail.as_str());
    head
}

} // verus!
