//! Terminal styling: painted text, rules, the warning box, wrapping and
//! the status stream.

use reckon::cli::style::{rule, warning_box, wrap, StreamLine, Style, Theme};
use reckon::cli::wordmark::{for_bob, standalone};

fn color() -> Theme {
    Theme::for_no_color(false)
}

#[test]
fn plain_theme_paints_nothing() {
    let t = Theme::plain();
    assert_eq!(Style::amber_bold().paint(t, "reckon").render(), "reckon");
    assert_eq!(Style::dim_italic().paint(t, "x").render(), "x");
}

#[test]
fn color_theme_emits_sgr_codes() {
    let t = color();
    assert_eq!(Style::amber_bold().paint(t, "reckon").render(), "\x1b[1;38;5;172mreckon\x1b[0m");
    assert_eq!(Style::green().paint(t, "ok").render(), "\x1b[38;5;71mok\x1b[0m");
    assert_eq!(Style::red_dim().paint(t, "no").render(), "\x1b[2;38;5;95mno\x1b[0m");
    assert_eq!(Style::dim_italic().paint(t, "i").render(), "\x1b[2;3mi\x1b[0m");
    assert_eq!(Style::bold().paint(t, "b").render(), "\x1b[1mb\x1b[0m");
    assert_eq!(Style::default().paint(t, "d").render(), "d");
}

#[test]
fn italics_follow_the_theme() {
    let t = Theme { color: true, italic: false };
    assert_eq!(Style::dim_italic().paint(t, "i").render(), "\x1b[2mi\x1b[0m");
}

#[test]
fn no_color_flag_turns_everything_off() {
    let t = Theme::for_no_color(true);
    assert!(!t.color && !t.italic);
    let t = Theme::for_no_color(false);
    assert!(t.color && t.italic);
}

#[test]
fn wordmarks() {
    assert_eq!(standalone(Theme::plain()), "reckon");
    assert_eq!(for_bob(Theme::plain()), "reckon \u{b7} for bob");
    assert_eq!(for_bob(color()), "\x1b[1;38;5;172mreckon\x1b[0m\x1b[2m \u{b7} for bob\x1b[0m");
}

#[test]
fn rule_repeats_the_box_dash() {
    assert_eq!(rule(0), "");
    assert_eq!(rule(3), "\u{2500}\u{2500}\u{2500}");
    assert_eq!(rule(58).chars().count(), 58);
}

#[test]
fn wrap_is_greedy_on_words() {
    assert_eq!(wrap("a bb ccc", 4), vec!["a bb".to_string(), "ccc".to_string()]);
    assert_eq!(wrap("  spaced   out  ", 80), vec!["spaced out".to_string()]);
    assert_eq!(wrap("", 10), Vec::<String>::new());
    // A word longer than the width stands on its own line.
    assert_eq!(
        wrap("ab abcdefgh c", 4),
        vec!["ab".to_string(), "abcdefgh".to_string(), "c".to_string()]
    );
    // Exactly the width fits.
    assert_eq!(wrap("ab cd", 5), vec!["ab cd".to_string()]);
}

#[test]
fn warning_box_plain_layout() {
    let lines = vec!["hello".to_string(), String::new()];
    let b = warning_box(Theme::plain(), "T", &lines);
    let rows: Vec<&str> = b.lines().collect();
    assert_eq!(rows.len(), 6);
    let dash = "\u{2500}";
    // Inner width is 56: the top border is `──` `T` `──` padded to 58.
    let top_inner = format!("{d}{d} T {d}{d}{rest}", d = dash, rest = dash.repeat(58 - 7));
    assert_eq!(rows[0], format!("  \u{250c}{top_inner}\u{2510}"));
    assert_eq!(rows[1], format!("  \u{2502} {} \u{2502}", " ".repeat(56)));
    assert_eq!(rows[2], format!("  \u{2502} hello{} \u{2502}", " ".repeat(51)));
    assert_eq!(rows[3], rows[1]);
    assert_eq!(rows[4], rows[1]);
    assert_eq!(rows[5], format!("  \u{2514}{}\u{2518}", dash.repeat(58)));
    assert!(b.ends_with('\n'));
}

#[test]
fn warning_box_widens_for_long_lines_and_titles() {
    let long = "x".repeat(70);
    let b = warning_box(Theme::plain(), "T", &[long.clone()]);
    let rows: Vec<&str> = b.lines().collect();
    assert_eq!(rows[2], format!("  \u{2502} {long} \u{2502}"));
    let title = "y".repeat(60);
    let b = warning_box(Theme::plain(), &title, &[]);
    let rows: Vec<&str> = b.lines().collect();
    // width = 60 + 6 = 66, top border inner = 68 columns.
    assert_eq!(rows[0].chars().count(), 2 + 1 + 68 + 1);
}

#[test]
fn stream_line_rewrites_and_clears() {
    let mut sl = StreamLine::new(Theme::plain());
    assert_eq!(sl.set_text("abc"), "\r    \r  abc");
    assert_eq!(sl.set_text("x"), "\r       \r  x");
    assert_eq!(sl.done_text(), "\r     \r");
    assert_eq!(sl.done_text(), "\r    \r");
}
