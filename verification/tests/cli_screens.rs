//! Text of the command-line screens, in plain (no colour) theme unless a
//! test says otherwise.

use reckon::cli::check::{box_lines, card, ci_summary, clear_line, exit_code, is_blank, reply, summarize_quote};
use reckon::cli::doctor::{host_label, memoir_count_label, row, skipped_dir, summary, Verdict};
use reckon::cli::init::{already_ignored, gitignore_with_entry, hook_wired, plan_hook, step_line};
use reckon::cli::install::{plan_merge, repo_value, Host, Servers};
use reckon::cli::memoir::{auto_line, done, pending, stats, steps, vanished, written};
use reckon::cli::style::Theme;
use reckon::cli::trace::{footer, pr_linking, pr_summary, rejected_pr, short_repo, step_lines};
use reckon::cli::why::{
    decision_trail, evidence_row, function_label, heading, pick_scar, sources_line, tier_or_default,
    trace_id, why_screen, why_text,
};
use reckon::git::{BlameLine, CommitInfo};
use reckon::indexer::{ArtifactBundle, Issue, PullRequest};
use reckon::postmortem::{Postmortem, PostmortemFrontmatter};
use reckon::tripwire::Warning;
use reckon::Error;

fn plain() -> Theme {
    Theme::plain()
}

fn commit(sha: &str, ts: i64, summary: &str) -> CommitInfo {
    CommitInfo {
        sha: sha.to_string(),
        short_sha: sha.chars().take(7).collect(),
        author: "kw".to_string(),
        email: "kw@example.com".to_string(),
        timestamp: ts,
        summary: summary.to_string(),
        message: summary.to_string(),
    }
}

fn pr(number: u64, state: &str, title: &str) -> PullRequest {
    PullRequest {
        number,
        title: title.to_string(),
        state: state.to_string(),
        ..Default::default()
    }
}

fn postmortem(id: &str, body: &str) -> Postmortem {
    Postmortem {
        fm: PostmortemFrontmatter {
            id: id.to_string(),
            date: "2024-09-04".to_string(),
            title: "Duplicate charges".to_string(),
            ..Default::default()
        },
        body: body.to_string(),
        current_code_refs: Vec::new(),
        source_path: format!("/repo/postmortems/{id}.md"),
    }
}

#[test]
fn why_heading_and_rows() {
    assert_eq!(
        heading(plain(), "payments/retry.py", 27, 28, "retry_payment()"),
        "reckon \u{b7} payments/retry.py \u{b7} retry_payment() \u{b7} lines 27\u{2013}28"
    );
    assert_eq!(heading(plain(), "a.py", 1, 1, ""), "reckon \u{b7} a.py \u{b7} lines 1\u{2013}1");
    assert_eq!(tier_or_default(None), "moderate");
    assert_eq!(tier_or_default(Some("strong")), "strong");
    assert_eq!(
        evidence_row(plain(), "strong"),
        "  \u{25cf} Evidence  Strong  \u{b7}  commit + PR + incident\n                          confirmed by bob cross-check"
    );
    assert_eq!(sources_line(plain(), 4, 2, 3, 17), "4 commits \u{b7} 2 PRs \u{b7} 3 incidents \u{b7} 17ms");
}

#[test]
fn trace_ids_are_zero_padded_hex() {
    assert_eq!(trace_id(255), "rec_0000ff");
    assert_eq!(trace_id(0), "rec_000000");
    assert_eq!(trace_id(0xabcdef12), "rec_abcdef12");
}

#[test]
fn why_text_prefers_the_scar() {
    let pm = postmortem("IR-117", "# IR-117\n\nFirst line\nsecond line.\n\nMore.");
    let b = ArtifactBundle::default();
    assert_eq!(why_text(Some(&pm), &b), "Added after IR-117 (2024-09-04). First line second line.");
    let mut b = ArtifactBundle::default();
    b.commits.push(commit("abcdef123", 5, "cap retries"));
    assert_eq!(why_text(None, &b), "Most recent change: \"cap retries\" \u{2014} commit abcdef1.");
    assert_eq!(why_text(None, &ArtifactBundle::default()), "No indexed history for this region yet.");
    let pms = vec![&pm];
    assert_eq!(pick_scar(&pms).unwrap().fm.id, "IR-117");
    assert!(pick_scar(&Vec::new()).is_none());
}

#[test]
fn why_text_cuts_long_paragraphs() {
    let pm = postmortem("IR-1", &"w".repeat(300));
    let t = why_text(Some(&pm), &ArtifactBundle::default());
    assert_eq!(t, format!("Added after IR-1 (2024-09-04). {}\u{2026}", "w".repeat(219)));
}

#[test]
fn decision_trail_rows() {
    let blame = vec![
        BlameLine { line: 1, sha: "aaa".into(), short_sha: "aaa".into(), summary: "fix".into(), author: "kw".into() },
        BlameLine { line: 2, sha: "aaa".into(), short_sha: "aaa".into(), summary: "fix".into(), author: "kw".into() },
    ];
    let mut b = ArtifactBundle::default();
    b.prs.push(pr(2841, "closed", "tenacity"));
    b.prs.push(pr(2847, "merged", "persist"));
    b.issues.push(Issue { id: "IR-117".into(), title: "dup".into(), state: "closed".into(), ..Default::default() });
    let rows = decision_trail(plain(), &b, &blame);
    assert_eq!(rows.len(), 4);
    assert_eq!(rows[0], format!("aaa  fix{}  @kw", " ".repeat(37)));
    assert_eq!(rows[1], format!("#2841      tenacity{}  \u{2717} closed", " ".repeat(32)));
    assert_eq!(rows[2], format!("#2847      persist{}  merged", " ".repeat(33)));
    assert_eq!(rows[3], format!("IR-117  dup{}  closed", " ".repeat(37)));
    let none = decision_trail(plain(), &ArtifactBundle::default(), &Vec::new());
    assert_eq!(none, vec!["(no decisions recorded)".to_string()]);
}

#[test]
fn function_labels() {
    let src = "import x\n\ndef retry_payment(order):\n    a = 1\n    b = 2\n";
    assert_eq!(function_label(src, 5).as_deref(), Some("retry_payment()"));
    assert_eq!(function_label(src, 3).as_deref(), Some("retry_payment()"));
    assert_eq!(function_label(src, 2), None);
    assert_eq!(function_label(src, 0), None);
    assert_eq!(function_label(src, 99), None);
    let rs = "struct S;\n    fn parse<T>(x: T) {\n        x\n    }\n";
    assert_eq!(function_label(rs, 3).as_deref(), Some("parse()"));
}

fn warning() -> Warning {
    Warning {
        tripwire_id: "TW-001".into(),
        severity: "high".into(),
        incident: "IR-117".into(),
        memoir_quote: "Duplicate charges \u{2014} keep the key".into(),
        guarding_test: "tests/t.py::test_key".into(),
        test_assertion: "The key is stable.".into(),
        suggested_action: "revert_hunk".into(),
        trace_id: "rec_1".into(),
        file: "payments/retry.py".into(),
        removed_range: [27, 28],
    }
}

#[test]
fn check_lines() {
    assert_eq!(clear_line(plain()), "  \u{2713} reckon  no tripwires triggered");
    assert!(is_blank("  \n\t"));
    assert!(!is_blank(" x "));
    assert_eq!(exit_code(0), 0);
    assert_eq!(exit_code(2), 1);
    let ws = vec![warning(), Warning { incident: "IR-091".into(), ..warning() }];
    assert_eq!(
        ci_summary(plain(), &ws),
        "  \u{26a0} reckon \u{b7} tripwire triggered \u{b7} IR-117, IR-091 \u{b7} exiting with code 1"
    );
    assert_eq!(summarize_quote("Title here \u{2014} rest", 56), "Title here");
    assert_eq!(summarize_quote("abcdef", 4), "abc\u{2026}");
    assert_eq!(reply(plain(), " A \n"), vec!["  \u{2192} Acknowledged. Continuing...".to_string()]);
    assert_eq!(reply(plain(), "r").len(), 2);
    assert_eq!(reply(plain(), "zz"), vec!["  \u{26a0} Invalid choice. Please use 'r', 'a', or '?'".to_string()]);
}

#[test]
fn warning_card_layout() {
    let w = warning();
    let body = box_lines(&w);
    assert_eq!(body.last().unwrap(), "See: postmortems/IR-117.md");
    assert_eq!(body[body.len() - 2], "");
    let c = card(plain(), &w);
    assert!(c.starts_with(
        "  Your staged diff removes lines 27\u{2013}28 of payments/retry.py.\n    This region is protected by a past incident fix.\n\n"
    ));
    assert!(c.contains("\u{2500}\u{2500} IR-117 \u{b7} Duplicate charges \u{2500}\u{2500}"));
    assert!(c.contains("  Guarding test\n  tests/t.py::test_key\n  The key is stable.\n\n"));
    assert!(c.ends_with("  memoir   MEMOIR.md \u{b7} tripwire TW-001\n  context  loaded from bob \u{b7} synthesized by bob\n\n"));
}

#[test]
fn trace_steps() {
    let (a, b) = step_lines(plain(), 3, "postmortem_search", "\"q\"", 91, "IR-117 score 0.91 \u{b7} IR-091 score 0.40 excluded", true);
    assert_eq!(a, "  03  postmortem_search  \"q\"    91ms");
    assert_eq!(b, "        IR-117 score 0.91 \u{b7} IR-091 score 0.40 excluded ");
    let (_, b) = step_lines(plain(), 0, "t", "a", 4, "plain text", false);
    assert_eq!(b, "        plain text");
    let (a, _) = step_lines(plain(), 12, "t", &"x".repeat(50), 12345, "s", false);
    assert_eq!(a, format!("  12  t  {}\u{2026}  12345ms", "x".repeat(39)));
    assert_eq!(footer(plain(), "rec_1"), "total 510ms \u{b7} 7 steps \u{b7} rec_1 \u{b7} orchestrated by bob");
    assert_eq!(short_repo("/home/kw/demo-repo"), "demo-repo");
    assert_eq!(short_repo("/"), "/");
}

#[test]
fn trace_rejected_words_in_color() {
    let t = Theme::for_no_color(false);
    let (_, b) = step_lines(t, 4, "gh", "a", 5, "PR #1 rejected", true);
    assert_eq!(b, "        \x1b[2mPR \x1b[0m\x1b[2m#1 \x1b[0m\x1b[2;38;5;95mrejected\x1b[0m ");
}

#[test]
fn trace_pull_request_lookups() {
    let mut a = pr(2611, "merged", "cap");
    a.linked_incidents = vec!["IR-091".into()];
    let mut b = pr(2847, "merged", "persist");
    b.linked_incidents = vec!["IR-117".into()];
    let c = pr(2841, "closed", "tenacity");
    let prs = vec![a, b, c];
    assert_eq!(pr_linking(&prs, "IR-117").unwrap().number, 2847);
    assert!(pr_linking(&prs, "IR-999").is_none());
    assert_eq!(rejected_pr(&prs).unwrap().number, 2841);
    assert_eq!(pr_summary(&prs[2], true), "PR #2841 \"tenacity\" rejected");
    assert_eq!(pr_summary(&prs[1], false), "PR #2847 \"persist\"");
}

#[test]
fn memoir_screen_lines() {
    assert_eq!(steps().len(), 8);
    assert_eq!(pending(plain(), "indexing commits"), "  \u{b7}  indexing commits");
    assert_eq!(done(plain(), 8, 0, "x"), "");
    assert_eq!(done(Theme::for_no_color(false), 8, 3, "x"), "\x1b[5A\r  \x1b[38;5;71m\u{2713}\x1b[0m  \x1b[2mx\x1b[0m\x1b[5B\r");
    assert_eq!(stats(12, 1, 2, "strong"), "8 decisions \u{b7} 1 scar \u{b7} 2 tripwires \u{b7} evidence: Strong");
    assert_eq!(stats(3, 0, 1, "weak"), "3 decisions \u{b7} 0 scars \u{b7} 1 tripwire \u{b7} evidence: Weak");
    assert_eq!(written(plain(), "payments"), "  \u{2713} payments/MEMOIR.md  written");
    assert_eq!(auto_line(plain(), "payments", 1, "strong"), "  \u{2713} memoir updated for payments: 1 tripwire(s), tier strong");
    match vanished("payments") {
        Error::Other(m) => assert_eq!(m, "memoir disappeared after update at payments"),
        other => panic!("{other:?}"),
    }
}

#[test]
fn doctor_rows_and_verdict() {
    assert_eq!(row(plain(), Verdict::Pass, "git repository", "/r", "fix"), vec![format!("  \u{2713} git repository{}  /r", " ".repeat(8))]);
    let r = row(plain(), Verdict::Warn, ".reckon/ sidecar", "missing", "run init");
    assert_eq!(r.len(), 2);
    assert_eq!(r[1], "       \u{2192} run init");
    assert_eq!(memoir_count_label(0), "none yet");
    assert_eq!(memoir_count_label(3), "3 found");
    assert_eq!(host_label(Some(("IBM Bob (1.x)", "/h/.bob/settings/mcp_settings.json"))), "IBM Bob (1.x) (/h/.bob/settings/mcp_settings.json)");
    assert_eq!(host_label(None), "not detected");
    assert!(skipped_dir("node_modules") && skipped_dir(".git") && !skipped_dir("src"));
    assert_eq!(summary(plain(), true, true).1, 1);
    assert_eq!(summary(plain(), false, true), ("  \u{b7} ready, with notes".to_string(), 0));
    assert_eq!(summary(plain(), false, false), ("  \u{2713} all systems go".to_string(), 0));
}

#[test]
fn init_decisions() {
    assert!(already_ignored("target/\n  .reckon/  \n"));
    assert!(already_ignored("/.reckon"));
    assert!(!already_ignored(".reckonx\n"));
    assert_eq!(gitignore_with_entry("target/"), "target/\n# Reckon sidecar (caches, evidence store).\n.reckon/\n");
    assert_eq!(gitignore_with_entry(""), "# Reckon sidecar (caches, evidence store).\n.reckon/\n");
    assert!(hook_wired("#!/bin/sh\nreckon memoir x\n"));
    assert!(!hook_wired("#!/bin/sh\n"));
    assert!(matches!(plan_hook(false, false, false, false, "h"), Err(Error::Other(_))));
    assert_eq!(plan_hook(true, true, true, false, "h").unwrap(), false);
    match plan_hook(true, true, false, false, ".git/hooks/post-commit") {
        Err(Error::Other(m)) => assert_eq!(m, ".git/hooks/post-commit already exists; pass --force to overwrite"),
        other => panic!("{other:?}"),
    }
    assert_eq!(plan_hook(true, true, false, true, "h").unwrap(), true);
    assert_eq!(step_line(plain(), true, "created", "exists", "postmortems/"), "  \u{b7} exists  postmortems/");
    assert_eq!(step_line(plain(), false, "created", "exists", "postmortems/"), "  \u{2713} created  postmortems/");
}

#[test]
fn install_decisions() {
    assert_eq!(Host::parse("BOB").unwrap(), Host::Bob);
    assert_eq!(Host::parse("Stdout").unwrap(), Host::Print);
    assert_eq!("cursor".parse::<Host>().unwrap(), Host::Cursor);
    assert_eq!(Host::parse("Vim").unwrap_err(), "unknown host 'vim'. Try: bob | cursor | print");
    assert_eq!(repo_value(None), "${workspaceFolder}");
    assert_eq!(repo_value(Some("/r")), "/r");
    assert_eq!(plan_merge("c.json", true, Servers::Missing, false).unwrap(), true);
    assert_eq!(plan_merge("c.json", true, Servers::Object { has_reckon: false }, false).unwrap(), false);
    assert_eq!(plan_merge("c.json", true, Servers::Object { has_reckon: true }, true).unwrap(), false);
    match plan_merge("c.json", true, Servers::Object { has_reckon: true }, false) {
        Err(Error::Other(m)) => assert_eq!(m, "`reckon` server already configured; pass --force to overwrite"),
        other => panic!("{other:?}"),
    }
    match plan_merge("c.json", false, Servers::Missing, false) {
        Err(Error::Other(m)) => assert_eq!(m, "existing config at c.json is not a JSON object"),
        other => panic!("{other:?}"),
    }
    match plan_merge("c.json", true, Servers::NotObject, true) {
        Err(Error::Other(m)) => assert_eq!(m, "existing `mcpServers` in c.json is not an object"),
        other => panic!("{other:?}"),
    }
}

#[test]
fn why_screen_lays_out_the_sections() {
    let pm = postmortem("IR-117", "# IR-117\n\nKey persisted late.");
    let mut b = ArtifactBundle::default();
    b.commits.push(commit("abcdef123", 5, "cap retries"));
    let blame = vec![BlameLine {
        line: 27,
        sha: "abcdef123".into(),
        short_sha: "abcdef1".into(),
        summary: "cap retries".into(),
        author: "kw".into(),
    }];
    let lines = why_screen(plain(), "payments/retry.py", 27, 28, "", "strong", Some(&pm), &b, &blame, 1, 9, "rec_0000ff");
    let want = vec![
        "  reckon \u{b7} payments/retry.py \u{b7} lines 27\u{2013}28".to_string(),
        format!("  {}", "\u{2500}".repeat(58)),
        String::new(),
        evidence_row(plain(), "strong"),
        String::new(),
        "  Why this code exists".to_string(),
        "  Added after IR-117 (2024-09-04). Key persisted late.".to_string(),
        String::new(),
        "  Decision trail".to_string(),
        format!("  abcdef1  cap retries{}  @kw", " ".repeat(29)),
        String::new(),
        "  Sources read".to_string(),
        "  1 commits \u{b7} 0 PRs \u{b7} 1 incidents \u{b7} 9ms".to_string(),
        String::new(),
        "  synthesized by bob  \u{b7}  granite-code (draft) \u{2192} partner-llm (verify)".to_string(),
        "  trace rec_0000ff    \u{b7}  run `reckon trace rec_0000ff` to expand".to_string(),
    ];
    assert_eq!(lines, want);
}
