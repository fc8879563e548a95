//! ANSI styling: a theme (whether colour and italics are shown), styles
//! (bold, dim, italic and a 256-colour foreground), painted text, the
//! one-line status stream, rules, the warning box and word wrapping.
//!
//! Palette: amber is ANSI 256 colour 172, muted green 71, dim brown-red 95.

use vstd::prelude::*;
use crate::number::{decimal, push_u64};
use crate::text::{chars_of, push_char, push_repeat, push_str, repeat, split_whitespace, string_of, views, words};

verus! {

#[derive(Debug, Clone, Copy)]
pub struct Theme {
    pub color: bool,
    pub italic: bool,
}

impl Theme {
    /// No colour, no italics.
    pub fn plain() -> (res: Self)
        ensures
            !res.color,
            !res.italic,
    {
        Theme { color: false, italic: false }
    }

    /// The theme when the environment does (`no_color`) or does not ask
    /// for plain output (`NO_COLOR` or `RECKON_NO_COLOR` set).
    pub fn for_no_color(no_color: bool) -> (res: Self)
        ensures
            res.color == !no_color,
            res.italic == !no_color,
    {
        Theme { color: !no_color, italic: !no_color }
    }
}

#[derive(Debug, Clone, Copy)]
pub struct Style {
    pub bold: bool,
    pub dim: bool,
    pub italic: bool,
    /// 256-colour foreground code, or `None` for the default colour.
    pub fg: Option<u8>,
}

/// A style with the given attributes.
pub open spec fn style_of(bold: bool, dim: bool, italic: bool, fg: Option<u8>) -> Style {
    Style { bold, dim, italic, fg }
}

impl Default for Style {
    /// Default foreground, no attributes.
    fn default() -> (res: Self)
        ensures
            res == style_of(false, false, false, None),
    {
        Style { bold: false, dim: false, italic: false, fg: None }
    }
}

impl Style {
    pub const AMBER: u8 = 172;
    pub const GREEN: u8 = 71;
    pub const RED_DIM: u8 = 95;

    pub fn amber() -> (res: Self)
        ensures
            res == style_of(false, false, false, Some(172u8)),
    {
        Style { bold: false, dim: false, italic: false, fg: Some(Self::AMBER) }
    }

    pub fn amber_bold() -> (res: Self)
        ensures
            res == style_of(true, false, false, Some(172u8)),
    {
        Style { bold: true, dim: false, italic: false, fg: Some(Self::AMBER) }
    }

    pub fn green() -> (res: Self)
        ensures
            res == style_of(false, false, false, Some(71u8)),
    {
        Style { bold: false, dim: false, italic: false, fg: Some(Self::GREEN) }
    }

    pub fn red_dim() -> (res: Self)
        ensures
            res == style_of(false, true, false, Some(95u8)),
    {
        Style { bold: false, dim: true, italic: false, fg: Some(Self::RED_DIM) }
    }

    pub fn dim() -> (res: Self)
        ensures
            res == style_of(false, true, false, None),
    {
        Style { bold: false, dim: true, italic: false, fg: None }
    }

    pub fn dim_italic() -> (res: Self)
        ensures
            res == style_of(false, true, true, None),
    {
        Style { bold: false, dim: true, italic: true, fg: None }
    }

    pub fn bold() -> (res: Self)
        ensures
            res == style_of(true, false, false, None),
    {
        Style { bold: true, dim: false, italic: false, fg: None }
    }

    /// `text` in this style under `theme`.
    pub fn paint(&self, theme: Theme, text: &str) -> (res: Painted)
        ensures
            res@ == painted_text(*self, theme, text@),
    {
        let mut t = String::new();
        push_str(&mut t, text);
        assert(t@ =~= text@);
        Painted { style: *self, theme, text: t }
    }
}

/// The SGR parameters of a style under a theme, each followed by `;`
/// (italics only where the theme shows them).
pub open spec fn sgr_codes(style: Style, theme: Theme) -> Seq<char> {
    (if style.bold {
        "1;"@
    } else {
        Seq::empty()
    }) + (if style.dim {
        "2;"@
    } else {
        Seq::empty()
    }) + (if style.italic && theme.italic {
        "3;"@
    } else {
        Seq::empty()
    }) + match style.fg {
        Some(c) => "38;5;"@ + decimal(c as nat) + ";"@,
        None => Seq::empty(),
    }
}

/// How `text` shows in `style` under `theme`: as it is without colour or
/// without parameters, else wrapped in an SGR sequence (parameters joined
/// by `;`) and a reset.
pub open spec fn painted_text(style: Style, theme: Theme, text: Seq<char>) -> Seq<char> {
    let codes = sgr_codes(style, theme);
    if !theme.color || codes.len() == 0 {
        text
    } else {
        "\x1b["@ + codes.drop_last() + "m"@ + text + "\x1b[0m"@
    }
}

/// Text with a style, rendered on demand.
pub struct Painted {
    style: Style,
    theme: Theme,
    text: String,
}

impl View for Painted {
    type V = Seq<char>;

    closed spec fn view(&self) -> Seq<char> {
        painted_text(self.style, self.theme, self.text@)
    }
}

impl Painted {
    /// The painted text, escape sequences included.
    pub fn render(&self) -> (res: String)
        ensures
            res@ == self@,
    {
        let mut codes = String::new();
        if self.style.bold {
            push_str(&mut codes, "1;");
        }
        if self.style.dim {
            push_str(&mut codes, "2;");
        }
        if self.style.italic && self.theme.italic {
            push_str(&mut codes, "3;");
        }
        match self.style.fg {
            Some(c) => {
                push_str(&mut codes, "38;5;");
                push_u64(&mut codes, c as u64);
                push_str(&mut codes, ";");
            },
            None => {},
        }
        assert(codes@ =~= sgr_codes(self.style, self.theme));
        let cv = chars_of(codes.as_str());
        if !self.theme.color || cv.len() == 0 {
            return self.text.clone();
        }
        let mut out = String::new();
        push_str(&mut out, "\x1b[");
        let mut i: usize = 0;
        let ghost start = out@;
        while i + 1 < cv.len()
            invariant
                i + 1 <= cv@.len(),
                out@ == start + cv@.take(i as int),
            decreases cv.len() - i,
        {
            push_char(&mut out, cv[i]);
            assert(cv@.take(i + 1) =~= cv@.take(i as int).push(cv@[i as int]));
            i = i + 1;
        }
        assert(cv@.take(i as int) =~= cv@.drop_last());
        push_str(&mut out, "m");
        push_str(&mut out, self.text.as_str());
        push_str(&mut out, "\x1b[0m");
        assert(out@ =~= painted_text(self.style, self.theme, self.text@));
        out
    }
}

/// One-line streaming status: each message rewrites the same line.
pub struct StreamLine {
    theme: Theme,
    last_len: usize,
}

impl StreamLine {
    pub fn new(theme: Theme) -> (res: Self)
        ensures
            res.theme() == theme,
            res.last_len() == 0,
    {
        StreamLine { theme, last_len: 0 }
    }

    pub closed spec fn theme(&self) -> Theme {
        self.theme
    }

    /// Characters in the message shown last.
    pub closed spec fn last_len(&self) -> nat {
        self.last_len as nat
    }

    /// What rewrites the line to show `msg`: a carriage return, blanks over
    /// the previous message, another carriage return, two spaces and the
    /// dimmed message.
    pub fn set_text(&mut self, msg: &str) -> (res: String)
        ensures
            res@ == "\r"@ + repeat(' ', old(self).last_len() + 4) + "\r  "@ + painted_text(
                Style::dim_spec(),
                old(self).theme(),
                msg@,
            ),
            final(self).theme() == old(self).theme(),
            final(self).last_len() == msg@.len(),
    {
        let mut out = String::new();
        push_str(&mut out, "\r");
        push_repeat(&mut out, ' ', self.last_len);
        push_repeat(&mut out, ' ', 4);
        push_str(&mut out, "\r  ");
        let dim = Style::dim().paint(self.theme, msg).render();
        push_str(&mut out, dim.as_str());
        assert(repeat(' ', self.last_len as nat) + repeat(' ', 4) =~= repeat(
            ' ',
            self.last_len as nat + 4,
        ));
        assert(out@ =~= "\r"@ + repeat(' ', self.last_len as nat + 4) + "\r  "@ + painted_text(
            Style::dim_spec(),
            self.theme,
            msg@,
        ));
        self.last_len = chars_of(msg).len();
        out
    }

    /// What clears the line: blanks over the previous message between two
    /// carriage returns.
    pub fn done_text(&mut self) -> (res: String)
        ensures
            res@ == "\r"@ + repeat(' ', old(self).last_len() + 4) + "\r"@,
            final(self).theme() == old(self).theme(),
            final(self).last_len() == 0,
    {
        let mut out = String::new();
        push_str(&mut out, "\r");
        push_repeat(&mut out, ' ', self.last_len);
        push_repeat(&mut out, ' ', 4);
        push_str(&mut out, "\r");
        assert(out@ =~= "\r"@ + repeat(' ', self.last_len as nat + 4) + "\r"@);
        self.last_len = 0;
        out
    }
}

impl Style {
    pub open spec fn dim_spec() -> Style {
        style_of(false, true, false, None)
    }
}

/// A horizontal rule `n` columns wide, drawn with `─`.
pub fn rule(n: usize) -> (res: String)
    ensures
        res@ == repeat('\u{2500}', n as nat),
{
    let mut s = String::new();
    push_repeat(&mut s, '\u{2500}', n);
    assert(s@ =~= repeat('\u{2500}', n as nat));
    s
}

/// Text painted amber.
pub open spec fn amber_text(theme: Theme, s: Seq<char>) -> Seq<char> {
    painted_text(style_of(false, false, false, Some(172u8)), theme, s)
}

fn amber(theme: Theme, s: &str) -> (res: String)
    ensures
        res@ == amber_text(theme, s@),
{
    Style::amber().paint(theme, s).render()
}

/// The widest of the first `k` lines, in characters.
pub open spec fn max_chars(lines: Seq<Seq<char>>, k: int) -> nat
    decreases k,
{
    if k <= 0 {
        0
    } else {
        let m = max_chars(lines, k - 1);
        let l = lines[k - 1].len();
        if l > m {
            l
        } else {
            m
        }
    }
}

proof fn lemma_max_chars(lines: Seq<Seq<char>>, k: int)
    requires
        0 <= k <= lines.len(),
    ensures
        forall|i: int| 0 <= i < k ==> (#[trigger] lines[i]).len() <= max_chars(lines, k),
    decreases k,
{
    if k > 0 {
        lemma_max_chars(lines, k - 1);
    }
}

/// Inner width of the warning box: the widest line, the title with its
/// marker, and at least 56 columns.
pub open spec fn box_width(title: Seq<char>, lines: Seq<Seq<char>>) -> nat {
    let a = max_chars(lines, lines.len() as int);
    let b = title.len() + 6;
    let m = if a > b {
        a
    } else {
        b
    };
    if m > 56 {
        m
    } else {
        56
    }
}

/// One body row of the warning box: `line` padded to `width`.
pub open spec fn box_row(theme: Theme, width: nat, line: Seq<char>) -> Seq<char> {
    "  "@ + amber_text(theme, "\u{2502}"@) + " "@ + line + repeat(' ', (width - line.len()) as nat) + " "@
        + amber_text(theme, "\u{2502}"@) + "\n"@
}

pub open spec fn box_rows(theme: Theme, width: nat, lines: Seq<Seq<char>>, k: int) -> Seq<char>
    decreases k,
{
    if k <= 0 {
        Seq::empty()
    } else {
        box_rows(theme, width, lines, k - 1) + box_row(theme, width, lines[k - 1])
    }
}

/// Top border of the warning box: `title` set between dashes, `width + 2`
/// columns in all.
#[verifier::opaque]
pub open spec fn box_top(theme: Theme, title: Seq<char>, width: nat) -> Seq<char> {
    let top_inner = "\u{2500}\u{2500} "@ + title + " \u{2500}\u{2500}"@ + repeat(
        '\u{2500}',
        (width + 2 - (title.len() + 6)) as nat,
    );
    "  "@ + amber_text(theme, "\u{250c}"@) + amber_text(theme, top_inner) + amber_text(
        theme,
        "\u{2510}"@,
    ) + "\n"@
}

/// Bottom border of the warning box, `width + 2` columns of dashes.
#[verifier::opaque]
pub open spec fn box_bottom(theme: Theme, width: nat) -> Seq<char> {
    "  "@ + amber_text(theme, "\u{2514}"@) + amber_text(theme, repeat('\u{2500}', width + 2))
        + amber_text(theme, "\u{2518}"@) + "\n"@
}

/// The warning box: an amber frame whose top border carries `title`,
/// a blank row, one row per line, a blank row and the bottom border.
pub open spec fn warning_box_spec(theme: Theme, title: Seq<char>, lines: Seq<Seq<char>>) -> Seq<char> {
    let w = box_width(title, lines);
    let blank = box_row(theme, w, Seq::empty());
    box_top(theme, title, w) + blank + box_rows(theme, w, lines, lines.len() as int) + blank
        + box_bottom(theme, w)
}

fn top_border(theme: Theme, title: &str, width: usize) -> (res: String)
    requires
        title@.len() + 6 <= width,
    ensures
        res@ == box_top(theme, title@, width as nat),
{
    reveal(box_top);
    let t = chars_of(title).len();
    let mut top_inner = String::new();
    push_str(&mut top_inner, "\u{2500}\u{2500} ");
    push_str(&mut top_inner, title);
    push_str(&mut top_inner, " \u{2500}\u{2500}");
    push_repeat(&mut top_inner, '\u{2500}', width - t - 4);
    let mut out = String::new();
    push_str(&mut out, "  ");
    push_str(&mut out, amber(theme, "\u{250c}").as_str());
    push_str(&mut out, amber(theme, top_inner.as_str()).as_str());
    push_str(&mut out, amber(theme, "\u{2510}").as_str());
    push_str(&mut out, "\n");
    assert(out@ =~= box_top(theme, title@, width as nat));
    out
}

fn bottom_border(theme: Theme, width: usize) -> (res: String)
    ensures
        res@ == box_bottom(theme, width as nat),
{
    reveal(box_bottom);
    let mut dashes = String::new();
    push_repeat(&mut dashes, '\u{2500}', width);
    push_repeat(&mut dashes, '\u{2500}', 2);
    assert(dashes@ =~= repeat('\u{2500}', width as nat + 2));
    let mut out = String::new();
    push_str(&mut out, "  ");
    push_str(&mut out, amber(theme, "\u{2514}").as_str());
    push_str(&mut out, amber(theme, dashes.as_str()).as_str());
    push_str(&mut out, amber(theme, "\u{2518}").as_str());
    push_str(&mut out, "\n");
    assert(out@ =~= box_bottom(theme, width as nat));
    out
}

fn box_line(theme: Theme, width: usize, line: &str) -> (res: String)
    requires
        line@.len() <= width,
    ensures
        res@ == box_row(theme, width as nat, line@),
{
    let n = chars_of(line).len();
    let mut s = String::new();
    push_str(&mut s, "  ");
    let bar = amber(theme, "\u{2502}");
    push_str(&mut s, bar.as_str());
    push_str(&mut s, " ");
    push_str(&mut s, line);
    push_repeat(&mut s, ' ', width - n);
    push_str(&mut s, " ");
    push_str(&mut s, bar.as_str());
    push_str(&mut s, "\n");
    assert(s@ =~= box_row(theme, width as nat, line@));
    s
}

/// Box-draws the warning block: `title` is set into the top border, the
/// body lines are padded to a common width, and the frame is amber.
pub fn warning_box(theme: Theme, title: &str, lines: &[String]) -> (res: String)
    requires
        title@.len() + 6 <= usize::MAX,
    ensures
        res@ == warning_box_spec(theme, title@, lines@.map_values(|l: String| l@)),
{
    let ghost lv = lines@.map_values(|l: String| l@);
    let mut a: usize = 0;
    let mut i: usize = 0;
    while i < lines.len()
        invariant
            i <= lines@.len(),
            lv == lines@.map_values(|l: String| l@),
            a == max_chars(lv, i as int),
        decreases lines.len() - i,
    {
        assert(lv[i as int] == lines@[i as int]@);
        let l = chars_of(lines[i].as_str()).len();
        if l > a {
            a = l;
        }
        i = i + 1;
    }
    let t = chars_of(title).len();
    let b = t + 6;
    let m = if a > b {
        a
    } else {
        b
    };
    let w = if m > 56 {
        m
    } else {
        56
    };
    assert(w == box_width(title@, lv));
    proof {
        lemma_max_chars(lv, lv.len() as int);
    }
    let mut out = top_border(theme, title, w);
    proof {
        reveal_strlit("");
    }
    let blank = box_line(theme, w, "");
    assert(""@ =~= Seq::<char>::empty());
    push_str(&mut out, blank.as_str());
    let ghost start = out@;
    let mut k: usize = 0;
    assert(out@ =~= start + box_rows(theme, w as nat, lv, 0));
    while k < lines.len()
        invariant
            k <= lines@.len(),
            lv == lines@.map_values(|l: String| l@),
            forall|q: int| 0 <= q < lv.len() ==> (#[trigger] lv[q]).len() <= w,
            out@ == start + box_rows(theme, w as nat, lv, k as int),
        decreases lines.len() - k,
    {
        assert(lv[k as int] == lines@[k as int]@);
        let row = box_line(theme, w, lines[k].as_str());
        push_str(&mut out, row.as_str());
        assert(out@ =~= start + box_rows(theme, w as nat, lv, k + 1));
        k = k + 1;
    }
    push_str(&mut out, blank.as_str());
    let bottom = bottom_border(theme, w);
    push_str(&mut out, bottom.as_str());
    assert(out@ =~= warning_box_spec(theme, title@, lv));
    out
}

/// Greedy wrapping of the first `k` words to `width` columns: the lines
/// completed so far and the line being filled.
pub open spec fn wrap_state(ws: Seq<Seq<char>>, width: int, k: int) -> (Seq<Seq<char>>, Seq<char>)
    decreases k,
{
    if k <= 0 {
        (Seq::empty(), Seq::empty())
    } else {
        let (ls, cur) = wrap_state(ws, width, k - 1);
        let w = ws[k - 1];
        let after = if cur.len() == 0 {
            w.len() as int
        } else {
            (cur.len() + 1 + w.len()) as int
        };
        let (ls2, cur2) = if after > width && cur.len() > 0 {
            (ls.push(cur), Seq::<char>::empty())
        } else {
            (ls, cur)
        };
        (ls2, if cur2.len() > 0 {
            cur2 + " "@ + w
        } else {
            w
        })
    }
}

/// `text` wrapped to `width` columns: words (split on whitespace) are
/// joined by single spaces, and a line is closed before a word that would
/// take it past `width`; a word longer than `width` stands on its own line.
pub open spec fn wrap_spec(text: Seq<char>, width: int) -> Seq<Seq<char>> {
    let ws = words(text);
    let (ls, cur) = wrap_state(ws, width, ws.len() as int);
    if cur.len() > 0 {
        ls.push(cur)
    } else {
        ls
    }
}

fn longer_than(a: usize, b: usize, width: usize) -> (res: bool)
    ensures
        res == (a + 1 + b > width),
{
    if b >= width {
        true
    } else {
        a > width - 1 - b
    }
}

/// Wraps a paragraph to `width` columns.
pub fn wrap(text: &str, width: usize) -> (res: Vec<String>)
    ensures
        res@.map_values(|s: String| s@) == wrap_spec(text@, width as int),
{
    let ws = split_whitespace(&chars_of(text));
    let ghost wv = views(ws@);
    let mut lines: Vec<String> = Vec::new();
    let mut current: Vec<char> = Vec::new();
    let mut i: usize = 0;
    while i < ws.len()
        invariant
            i <= ws@.len(),
            wv == views(ws@),
            wv == words(text@),
            lines@.map_values(|s: String| s@) == wrap_state(wv, width as int, i as int).0,
            current@ == wrap_state(wv, width as int, i as int).1,
        decreases ws.len() - i,
    {
        let word = &ws[i];
        assert(wv[i as int] == word@);
        let ghost next = wrap_state(wv, width as int, i + 1);
        proof {
            reveal_strlit(" ");
            assert(" "@ =~= seq![' ']);
        }
        let after = if current.len() == 0 {
            word.len() > width
        } else {
            longer_than(current.len(), word.len(), width)
        };
        if after && current.len() > 0 {
            let ghost before = lines@.map_values(|s: String| s@);
            let done = string_of(&current);
            lines.push(done);
            assert(lines@.map_values(|s: String| s@) =~= before.push(current@));
            current = Vec::new();
        }
        if current.len() > 0 {
            current.push(' ');
            let ghost c = current@;
            let mut j: usize = 0;
            while j < word.len()
                invariant
                    j <= word@.len(),
                    current@ == c + word@.take(j as int),
                decreases word.len() - j,
            {
                current.push(word[j]);
                assert(word@.take(j + 1) =~= word@.take(j as int).push(word@[j as int]));
                j = j + 1;
            }
            assert(word@.take(word@.len() as int) =~= word@);
        } else {
            current = word.clone();
            assert(current@ =~= word@);
        }
        assert(lines@.map_values(|s: String| s@) == next.0);
        assert(current@ =~= next.1);
        i = i + 1;
    }
    if current.len() > 0 {
        let ghost before = lines@.map_values(|s: String| s@);
        lines.push(string_of(&current));
        assert(lines@.map_values(|s: String| s@) =~= before.push(current@));
    }
    lines
}

/// A line of wrapped text fits in `width` columns or is one of the words.
pub open spec fn fits_or_word(l: Seq<char>, ws: Seq<Seq<char>>, width: int) -> bool {
    l.len() <= width || ws.contains(l)
}

proof fn lemma_wrap_state_fits(ws: Seq<Seq<char>>, width: int, k: int)
    requires
        0 <= k <= ws.len(),
    ensures
        forall|i: int|
            0 <= i < wrap_state(ws, width, k).0.len() ==> fits_or_word(
                #[trigger] wrap_state(ws, width, k).0[i],
                ws,
                width,
            ),
        wrap_state(ws, width, k).1.len() > 0 ==> fits_or_word(wrap_state(ws, width, k).1, ws, width),
    decreases k,
{
    if k > 0 {
        lemma_wrap_state_fits(ws, width, k - 1);
        let (ls, cur) = wrap_state(ws, width, k - 1);
        let w = ws[k - 1];
        assert(ws.contains(w));
        let after = if cur.len() == 0 {
            w.len() as int
        } else {
            (cur.len() + 1 + w.len()) as int
        };
        let (ls2, cur2) = if after > width && cur.len() > 0 {
            (ls.push(cur), Seq::<char>::empty())
        } else {
            (ls, cur)
        };
        assert forall|i: int| 0 <= i < ls2.len() implies fits_or_word(#[trigger] ls2[i], ws, width) by {
            if i < ls.len() {
                assert(ls2[i] == ls[i]);
            }
        }
        if cur2.len() > 0 {
            reveal_strlit(" ");
            assert((cur2 + " "@ + w).len() == after);
        }
    }
}

/// Wrapping keeps to the width: every line fits in `width` columns,
/// except a single word longer than that, which stands on its own line.
pub proof fn wrapped_lines_fit(text: Seq<char>, width: int)
    ensures
        forall|i: int|
            0 <= i < wrap_spec(text, width).len() ==> fits_or_word(
                #[trigger] wrap_spec(text, width)[i],
                words(text),
                width,
            ),
{
    let ws = words(text);
    lemma_wrap_state_fits(ws, width, ws.len() as int);
    let (ls, cur) = wrap_state(ws, width, ws.len() as int);
    let r = wrap_spec(text, width);
    assert forall|i: int| 0 <= i < r.len() implies fits_or_word(#[trigger] r[i], ws, width) by {
        if i < ls.len() {
            assert(r[i] == ls[i]);
        } else {
            assert(r[i] == cur);
        }
    }
}

} // verus!
