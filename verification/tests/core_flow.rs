//! The core flow on a small fixture: commit history merged from file
//! logs, artifacts linked to it, tripwires derived, the memoir rendered
//! and read back, and a diff checked against it.

use std::sync::Arc;

use reckon::config::Config;
use reckon::diff::parse;
use reckon::evidence::range_label;
use reckon::git::{blame_line, commit_info, follow_rename, short, CommitInfo};
use reckon::indexer::{bundle_for_module, link_bundle, merge_commit_logs, module_for_path, ForgeBundle, Issue, PullRequest};
use reckon::memoir::{
    derive_tripwires, first_paragraph, last_commit, memoir_document, memoir_frontmatter, read_memoir_document,
    relpath_from_repo, render_body, tier, ParsedMemoir, RegionSpec, TripwireSpec,
};
use reckon::postmortem::{split_frontmatter, CodeRef, Postmortem, PostmortemFrontmatter, PostmortemIndex};
use reckon::refs::{incident_ids, pr_refs};
use reckon::seed::fixtures;
use reckon::target::parse_target;
use reckon::tripwire::{diff_fits, touched_modules, TripwireChecker};
use reckon::writer::tmp_extension;
use reckon::Error;

fn commit(sha: &str, ts: i64, message: &str) -> CommitInfo {
    CommitInfo {
        sha: sha.to_string(),
        short_sha: sha.chars().take(7).collect(),
        author: "kw".to_string(),
        email: "kw@example.com".to_string(),
        timestamp: ts,
        summary: message.lines().next().unwrap_or("").to_string(),
        message: message.to_string(),
    }
}

fn history() -> Vec<CommitInfo> {
    vec![
        commit("dddddddd00", 40, "chore(retry): skip retry on permanent_decline classifier, see #3104"),
        commit("cccccccc00", 30, "fix(retry): persist idempotency key before network call (IR-117)\n\nbody"),
        commit("bbbbbbbb00", 20, "fix(retry): cap retries at 3 (IR-091)"),
        commit("aaaaaaaa00", 10, "feat(payments): initial retry shell"),
    ]
}

fn pr(number: u64, state: &str, merge_commit: Option<&str>, files: &[&str], incidents: &[&str], tests: &[&str]) -> PullRequest {
    PullRequest {
        number,
        title: format!("PR {number}"),
        state: state.to_string(),
        author: "kw".to_string(),
        merged_at: if state == "merged" { Some("2024-09-05".to_string()) } else { None },
        closed_at: None,
        merge_commit: merge_commit.map(|s| s.to_string()),
        body: "Why it was closed.\n\nMore.".to_string(),
        linked_incidents: incidents.iter().map(|s| s.to_string()).collect(),
        linked_tests: tests.iter().map(|s| s.to_string()).collect(),
        files: files.iter().map(|s| s.to_string()).collect(),
    }
}

fn forge() -> ForgeBundle {
    ForgeBundle {
        prs: vec![
            pr(2611, "merged", Some("bbbbbbb"), &["payments/retry.py"], &["IR-091"], &[]),
            pr(2847, "merged", Some("cccccccc00"), &["payments/retry.py"], &["IR-117"], &["tests/payments/test_retry.py::test_key"]),
            pr(2841, "closed", None, &["payments/retry.py"], &["IR-117"], &[]),
            pr(9999, "merged", None, &["web/app.js"], &[], &[]),
        ],
        issues: vec![
            Issue { id: "IR-117".into(), title: "Duplicate charges".into(), state: "closed".into(), ..Default::default() },
            Issue { id: "IR-091".into(), title: "Retry storm".into(), state: "closed".into(), ..Default::default() },
        ],
    }
}

fn postmortems() -> PostmortemIndex {
    PostmortemIndex::new(vec![Postmortem {
        fm: PostmortemFrontmatter {
            id: "IR-117".into(),
            date: "2024-09-04".into(),
            title: "Duplicate charges".into(),
            ..Default::default()
        },
        body: "# IR-117\n\n## Summary\n\nA refactor replaced the key. More text.\n".into(),
        current_code_refs: vec![CodeRef { file: "payments/retry.py".into(), lines: [27, 28] }],
        source_path: "/repo/postmortems/IR-117.md".into(),
    }])
}

#[test]
fn merged_history_is_deduplicated_and_newest_first() {
    let h = history();
    let logs = vec![h.clone(), vec![h[1].clone(), h[3].clone()]];
    let merged = merge_commit_logs(&logs);
    let shas: Vec<&str> = merged.iter().map(|c| c.sha.as_str()).collect();
    assert_eq!(shas, vec!["dddddddd00", "cccccccc00", "bbbbbbbb00", "aaaaaaaa00"]);
    // Stable among equal times, first occurrence kept.
    let a = commit("a", 1, "a");
    let b = commit("b", 5, "b");
    let c = commit("c", 5, "c");
    let merged = merge_commit_logs(&vec![vec![a.clone()], vec![b.clone(), a.clone()], vec![c.clone()]]);
    let shas: Vec<&str> = merged.iter().map(|c| c.sha.as_str()).collect();
    assert_eq!(shas, vec!["b", "c", "a"]);
    assert!(merge_commit_logs(&Vec::new()).is_empty());
}

#[test]
fn references_in_messages() {
    assert_eq!(incident_ids("fix (IR-117) and ABCD-12345, not ir-1 or X-12"), vec!["IR-117".to_string(), "ABCD-12345".to_string()]);
    assert_eq!(pr_refs("see #3104 and #12, not #1234567"), vec![3104, 12]);
    assert!(pr_refs("no refs").is_empty());
}

#[test]
fn bundle_links_prs_and_issues() {
    let f = forge();
    let b = link_bundle("payments", history(), &f);
    assert_eq!(b.module_dir, "payments");
    assert_eq!(b.commits.len(), 4);
    let nums: Vec<u64> = b.prs.iter().map(|p| p.number).collect();
    assert_eq!(nums, vec![2611, 2841, 2847]);
    let ids: Vec<&str> = b.issues.iter().map(|i| i.id.as_str()).collect();
    assert_eq!(ids, vec!["IR-091", "IR-117"]);
    let same = bundle_for_module("payments", &vec![history()], &f);
    assert_eq!(same.prs.len(), 3);
    assert_eq!(same.commits[0].sha, "dddddddd00");
}

#[test]
fn prs_of_commits() {
    let f = forge();
    assert_eq!(f.pr_for_commit("cccccccc00").unwrap().number, 2847);
    assert_eq!(f.pr_for_commit("bbbbbbbb00").unwrap().number, 2611);
    assert!(f.pr_for_commit("eeeeeee").is_none());
    assert_eq!(f.issue("IR-091").unwrap().title, "Retry storm");
    assert!(f.issue("IR-1").is_none());
}

#[test]
fn modules_of_paths() {
    assert_eq!(module_for_path("payments/retry.py", "/repo").unwrap(), "payments");
    assert_eq!(module_for_path("/repo/a/b/c.rs", "/repo").unwrap(), "a/b");
    match module_for_path("top.py", "/repo") {
        Err(Error::ModuleNotFound(p)) => assert_eq!(p, "top.py"),
        other => panic!("{other:?}"),
    }
    assert_eq!(module_for_path("/elsewhere/x.py", "/repo").unwrap(), "/elsewhere");
}

#[test]
fn tripwires_from_history() {
    let f = forge();
    let tws = derive_tripwires("payments", &history(), &f, &postmortems());
    assert_eq!(tws.len(), 2);
    assert_eq!(tws[0].id, "TW-001");
    assert_eq!(tws[0].incident, "IR-091");
    assert_eq!(tws[0].guarding_test, "tests::ir-091_regression");
    assert_eq!(tws[0].region.file, "payments/retry.py");
    assert_eq!(tws[0].region.lines, [1, 1]);
    assert_eq!(tws[1].id, "TW-002");
    assert_eq!(tws[1].incident, "IR-117");
    assert_eq!(tws[1].guarding_test, "tests/payments/test_retry.py::test_key");
    assert_eq!(tws[1].region.lines, [27, 28]);
    assert_eq!(tws[1].summary, "Region originally added to close IR-117; reverting it re-opens the same failure mode.");
}

#[test]
fn memoir_body_and_document() {
    let f = forge();
    let bundle = link_bundle("payments", history(), &f);
    let index = postmortems();
    let pms = index.for_module("payments");
    assert_eq!(pms.len(), 1);
    let tws = derive_tripwires("payments", &bundle.commits, &f, &index);
    assert_eq!(tier(&bundle, pms.len()), "strong");
    let lc = last_commit(&bundle, "head000");
    assert_eq!(lc, "ddddddd");
    let body = render_body("payments", "2025-01-01 00:00 UTC", &bundle, &pms, &tws, &lc);
    assert!(body.starts_with(
        "# payments \u{2014} Memoir\n\n_Last updated **2025-01-01 00:00 UTC** \u{b7} `ddddddd` \u{b7} 4 commits \u{b7} 3 incidents \u{b7} 3 PRs \u{b7} 2 guarding tests._\n\n## What this module does\n\n"
    ));
    assert!(body.contains("## Why it's shaped this way\n\n1. **chore(retry): skip retry on permanent_decline classifier, see #3104** \u{2014} commit `ddddddd`.[^1]\n"));
    assert!(body.contains("> **IR-117 \u{b7} 2024-09-04 \u{b7} Duplicate charges**\n>\n> A refactor replaced the key. More text.\n>\n> See `postmortems/IR-117.md`.\n\n"));
    assert!(body.contains("| TW-002 | `payments/retry.py:27\u{2013}28` | IR-117 | `tests/payments/test_retry.py::test_key` |\n"));
    assert!(body.contains("## Rejected alternatives\n\n- **PR #2841 (closed unknown)** \u{2014} PR 2841. Why it was closed.\n\n"));
    assert!(body.contains("_Auto-maintained by Bob Reckon. Last updated by commit `ddddddd`._\n\n[^1]: commit `ddddddd` \u{2014} \""));
    assert!(body.ends_with("[^4]: commit `aaaaaaa` \u{2014} \"feat(payments): initial retry shell\"\n"));

    let fm = memoir_frontmatter("payments", "2025-01-01T00:00:00Z", &bundle, pms.len(), tws, lc);
    assert_eq!(fm.evidence_tier, "strong");
    let doc = memoir_document("module: payments\n", &body).unwrap();
    assert!(doc.starts_with("---\nmodule: payments\n---\n\n# payments"));
    let (yaml, back) = read_memoir_document(&doc, "payments/MEMOIR.md").unwrap();
    assert_eq!(yaml, "module: payments");
    assert_eq!(back, body);
    match read_memoir_document("no frontmatter", "p/MEMOIR.md") {
        Err(Error::InvalidMemoir(m)) => assert_eq!(m, "p/MEMOIR.md has no frontmatter"),
        other => panic!("{other:?}"),
    }
}

#[test]
fn memoir_helpers() {
    assert_eq!(first_paragraph("# H\n\n  a\nb  \n\nc"), "a b");
    assert_eq!(first_paragraph("# only heading"), "");
    assert_eq!(relpath_from_repo("/repo/postmortems/IR-1.md"), "postmortems/IR-1.md");
    assert_eq!(relpath_from_repo("/"), "/");
    let empty = reckon::indexer::ArtifactBundle::default();
    assert_eq!(tier(&empty, 0), "weak");
    assert_eq!(last_commit(&empty, "head000"), "head000");
}

const DIFF: &str = "--- a/payments/retry.py
+++ b/payments/retry.py
@@ -25,5 +25,3 @@ def f():
 a
 b
-    key = build(order_id, attempt)
-    persist(key)
 c
";

fn parsed_memoir() -> ParsedMemoir {
    let f = forge();
    let tws = derive_tripwires("payments", &history(), &f, &postmortems());
    let bundle = link_bundle("payments", history(), &f);
    let fm = memoir_frontmatter("payments", "now", &bundle, 1, tws, "ddddddd".to_string());
    ParsedMemoir { frontmatter: fm, body: String::new() }
}

#[test]
fn check_fires_on_the_guarded_removal() {
    let files = parse(DIFF).unwrap();
    assert!(diff_fits(&files));
    let modules = touched_modules(&files, "/repo");
    assert_eq!(modules, vec![Some("payments".to_string())]);
    let checker = TripwireChecker::new(Arc::new(Config::for_repo("/repo", true).unwrap()));
    let result = checker.check_parsed(&files, &vec![Some(parsed_memoir())], &postmortems(), "rec_1");
    assert_eq!(result.warnings.len(), 1);
    let w = &result.warnings[0];
    assert_eq!(w.tripwire_id, "TW-002");
    assert_eq!(w.incident, "IR-117");
    assert_eq!(w.removed_range, [27, 28]);
    assert_eq!(w.file, "payments/retry.py");
    assert_eq!(w.memoir_quote, "Duplicate charges \u{2014} A refactor replaced the key. More text.");
    assert_eq!(w.test_assertion, "A refactor replaced the key.");
    assert_eq!(w.severity, "high");
    assert_eq!(w.suggested_action, "revert_hunk");
    assert_eq!(w.trace_id, "rec_1");
    // Without a memoir for the file nothing fires.
    let none = checker.check_parsed(&files, &vec![None], &postmortems(), "rec_1");
    assert!(none.warnings.is_empty());
}

#[test]
fn check_warns_once_per_hunk_and_tripwire() {
    // One hunk removes lines 27 and 29 around a kept line 28: two removed
    // ranges, both inside the guarded region, still give one warning.
    let d = "--- a/payments/retry.py\n+++ b/payments/retry.py\n@@ -26,4 +26,2 @@\n a\n-x\n y\n-z\n";
    let files = parse(d).unwrap();
    assert_eq!(files[0].hunks[0].removed_ranges(), vec![(27, 27), (29, 29)]);
    let checker = TripwireChecker::new(Arc::new(Config::for_repo("/repo", true).unwrap()));
    let result = checker.check_parsed(&files, &vec![Some(parsed_memoir())], &postmortems(), "t");
    assert_eq!(result.warnings.len(), 1);
    assert_eq!(result.warnings[0].tripwire_id, "TW-002");
    assert_eq!(result.warnings[0].removed_range, [27, 27]);
}

fn tripwire_on(id: &str, line: usize) -> TripwireSpec {
    TripwireSpec {
        id: id.to_string(),
        region: RegionSpec { file: "payments/retry.py".to_string(), lines: [line, line] },
        incident: "IR-9".to_string(),
        guarding_test: String::new(),
        summary: "guarded".to_string(),
    }
}

#[test]
fn check_orders_warnings_by_removed_range() {
    // TW-A guards line 29 and TW-B line 27: the range removed first (27)
    // comes first, although TW-A is listed first.
    let d = "--- a/payments/retry.py\n+++ b/payments/retry.py\n@@ -26,4 +26,2 @@\n a\n-x\n y\n-z\n";
    let files = parse(d).unwrap();
    let mut memoir = parsed_memoir();
    memoir.frontmatter.tripwires = vec![tripwire_on("TW-A", 29), tripwire_on("TW-B", 27)];
    let checker = TripwireChecker::new(Arc::new(Config::for_repo("/repo", true).unwrap()));
    let result = checker.check_parsed(&files, &vec![Some(memoir)], &postmortems(), "t");
    let got: Vec<(&str, [usize; 2])> =
        result.warnings.iter().map(|w| (w.tripwire_id.as_str(), w.removed_range)).collect();
    assert_eq!(got, vec![("TW-B", [27, 27]), ("TW-A", [29, 29])]);
}

#[test]
fn check_is_quiet_outside_guarded_lines() {
    let d = "--- a/payments/retry.py\n+++ b/payments/retry.py\n@@ -40,2 +40,1 @@\n a\n-b\n";
    let files = parse(d).unwrap();
    let checker = TripwireChecker::new(Arc::new(Config::for_repo("/repo", true).unwrap()));
    let result = checker.check_parsed(&files, &vec![Some(parsed_memoir())], &postmortems(), "t");
    assert!(result.warnings.is_empty());
}

#[test]
fn config_paths() {
    let c = Config::for_repo("/r", true).unwrap();
    assert_eq!(c.sidecar_dir(), "/r/.reckon");
    assert_eq!(c.sqlite_path(), "/r/.reckon/evidence.db");
    assert_eq!(c.chroma_dir(), "/r/.reckon/chroma");
    assert_eq!(c.postmortems_path(), "/r/postmortems");
    assert_eq!(c.github_fixture_path(), "/r/.fixtures/github");
    match Config::for_repo("/nope", false) {
        Err(Error::Config(m)) => assert_eq!(m, "repo_root \"/nope\" is not a directory"),
        other => panic!("{other:?}"),
    }
}

#[test]
fn targets() {
    assert_eq!(parse_target("a.py:5").unwrap(), ("a.py".to_string(), 5, 5));
    assert_eq!(parse_target("p/a.py:27-28").unwrap(), ("p/a.py".to_string(), 27, 28));
    assert_eq!(parse_target("c:/x.py:3").unwrap(), ("c:/x.py".to_string(), 3, 3));
    let msg = |s: &str| match parse_target(s) {
        Err(Error::Other(m)) => m,
        other => panic!("{other:?}"),
    };
    assert_eq!(msg("a.py"), "expected `<path>:<line>` or `<path>:<start>-<end>` but got `a.py`");
    assert_eq!(msg("a.py:x"), "parsing line number in \"a.py:x\"");
    assert_eq!(msg("a.py:x-2"), "parsing start line in \"a.py:x-2\"");
    assert_eq!(msg("a.py:1-"), "parsing end line in \"a.py:1-\"");
    assert_eq!(msg("a.py:0"), "invalid line range 0..0");
    assert_eq!(msg("a.py:5-3"), "invalid line range 5..3");
}

#[test]
fn seed_fixtures_and_small_records() {
    let fx = fixtures("abc1234");
    let paths: Vec<&str> = fx.iter().map(|(p, _)| p.as_str()).collect();
    assert_eq!(paths, vec!["postmortems/IR-117.md", "postmortems/IR-091.md", ".fixtures/github/prs.json", ".fixtures/github/issues.json"]);
    assert_eq!(fx[2].1.matches("\"merge_commit\": \"abc1234\"").count(), 2);
    assert!(fx[0].1.starts_with("---\nid: IR-117\n"));
    assert_eq!(range_label(27, 28), "27-28");
    assert_eq!(tmp_extension(Some("md")), "md.reckon.tmp");
    assert_eq!(tmp_extension(Some("")), "reckon.tmp");
    assert_eq!(tmp_extension(None), "reckon.tmp");
    assert_eq!(short("abcdef0123"), "abcdef0");
    assert_eq!(short("abc"), "abc");
    let c = commit_info("abcdef0123", None, Some("e@x"), 7, Some("sum"), None);
    assert_eq!((c.author.as_str(), c.short_sha.as_str(), c.message.as_str()), ("(unknown)", "abcdef0", ""));
    let b = blame_line(3, "0123456789", None, Some("kw"));
    assert_eq!((b.summary.as_str(), b.author.as_str(), b.short_sha.as_str()), ("", "kw", "0123456"));
    let deltas = vec![("a.py".to_string(), "b.py".to_string()), ("a.py".to_string(), "c.py".to_string())];
    assert_eq!(follow_rename(&deltas, "a.py").as_deref(), Some("b.py"));
    assert_eq!(follow_rename(&deltas, "z.py"), None);
}

fn postmortem_at(id: &str, file: &str) -> Postmortem {
    Postmortem {
        fm: PostmortemFrontmatter { id: id.into(), ..Default::default() },
        body: String::new(),
        current_code_refs: vec![CodeRef { file: file.into(), lines: [1, 2] }],
        source_path: format!("/repo/postmortems/{id}.md"),
    }
}

#[test]
fn postmortems_for_a_module_compare_whole_path_components() {
    let index = PostmortemIndex::new(vec![
        postmortem_at("IR-1", "payments/retry.py"),
        postmortem_at("IR-2", "payments_v2/x.py"),
        postmortem_at("IR-3", "payments"),
        postmortem_at("IR-4", "billing/payments/y.py"),
    ]);
    let ids: Vec<&str> = index.for_module("payments").iter().map(|d| d.fm.id.as_str()).collect();
    assert_eq!(ids, vec!["IR-1", "IR-3"]);
    assert!(index.for_module("payments/retry").is_empty());
}

#[test]
fn frontmatter_splits_back_into_its_parts() {
    let fm = "id: IR-117\ntitle: Duplicate charges";
    let body = "# IR-117\n\nText.\n";
    let doc = format!("---\n{fm}\n---\n{body}");
    let (f, b) = split_frontmatter(&doc).unwrap();
    assert_eq!(f, fm);
    assert_eq!(b, body);
}

#[test]
fn missing_repo_root_is_quoted_as_a_path() {
    match Config::for_repo("/tmp/say \"hi\"", false) {
        Err(Error::Config(m)) => assert_eq!(m, "repo_root \"/tmp/say \\\"hi\\\"\" is not a directory"),
        other => panic!("{other:?}"),
    }
}
