//! The MCP server's decisions: routing, the tool and prompt lists, prompt
//! texts and the explain markdown.

use reckon::git::BlameLine;
use reckon::mcp::{
    explain_markdown, missing_memoir, parse_range_end, parse_range_start, prompt_get, prompt_list,
    route, tool_list, tool_route, McpError, PropertyKind, Route, ToolKind,
};
use reckon::memoir::{MemoirFrontmatter, ParsedMemoir, RegionSpec, TripwireSpec};
use reckon::Error;

fn args(pairs: &[(&str, &str)]) -> Vec<(String, String)> {
    pairs.iter().map(|(k, v)| (k.to_string(), v.to_string())).collect()
}

#[test]
fn routes_known_methods_and_refuses_others() {
    assert_eq!(route("initialize").unwrap(), Route::Initialize);
    assert_eq!(route("tools/call").unwrap(), Route::ToolsCall);
    assert_eq!(route("resources/templates/list").unwrap(), Route::ResourceTemplatesList);
    let e = route("bogus").unwrap_err();
    assert_eq!(e.code, -32601);
    assert_eq!(e.message, "method not found: bogus");
}

#[test]
fn tool_names_with_or_without_prefix() {
    assert_eq!(tool_route("reckon.check_diff").unwrap(), ToolKind::CheckDiff);
    assert_eq!(tool_route("check_diff").unwrap(), ToolKind::CheckDiff);
    assert_eq!(tool_route("explain").unwrap(), ToolKind::Explain);
    let e = tool_route("reckon.nope").unwrap_err();
    assert_eq!(e.code, -32601);
    assert_eq!(e.message, "method not found: tool reckon.nope");
}

#[test]
fn error_codes() {
    assert_eq!(McpError::invalid_params("x").code, -32602);
    assert_eq!(McpError::internal("y").code, -32603);
    let e = McpError::from_error(&Error::Other("boom".to_string()));
    assert_eq!((e.code, e.message.as_str()), (-32603, "boom"));
    let m = missing_memoir("payments");
    assert_eq!(m.code, -32602);
    assert_eq!(m.message, "No MEMOIR.md exists for module \"payments\". Call reckon.update_memoir first.");
}

#[test]
fn five_tools_each_requiring_declared_arguments() {
    let tools = tool_list();
    let names: Vec<&str> = tools.iter().map(|t| t.name.as_str()).collect();
    assert_eq!(
        names,
        vec![
            "reckon.read_memoir",
            "reckon.update_memoir",
            "reckon.explain",
            "reckon.check_diff",
            "reckon.search_postmortems"
        ]
    );
    for t in &tools {
        assert!(tool_route(&t.name).is_ok());
        for r in &t.required {
            assert!(t.properties.iter().any(|p| &p.name == r), "{} requires {}", t.name, r);
        }
    }
    let explain = &tools[2];
    assert_eq!(explain.required, vec!["path".to_string(), "range".to_string()]);
    assert!(matches!(explain.properties[2].kind, PropertyKind::LineRange));
    let search = &tools[4];
    assert!(matches!(search.properties[1].kind, PropertyKind::Count { minimum: 1, default: Some(5) }));
}

#[test]
fn six_prompts_all_served() {
    let prompts = prompt_list();
    assert_eq!(prompts.len(), 6);
    for p in &prompts {
        assert!(prompt_get(&p.name, &Vec::new()).is_ok(), "{}", p.name);
    }
    assert_eq!(prompts[1].name, "reckon-why");
    assert!(prompts[1].arguments.iter().all(|a| a.required));
    assert!(!prompts[0].arguments[1].required);
    let e = prompt_get("reckon-nope", &Vec::new()).unwrap_err();
    assert_eq!(e.message, "method not found: prompt reckon-nope");
}

#[test]
fn prompt_texts() {
    let (d, t) = prompt_get("reckon-why", &args(&[("path", "payments/retry.py"), ("lines", "27-28")])).unwrap();
    assert_eq!(d, "Grounded \"why is this code like this?\"");
    assert_eq!(
        t,
        "Call `reckon.explain` with `path=payments/retry.py` and `range=[27, 28]` (parse `27-28`), then present the result with the memoir excerpt quoted verbatim and the decision trail as a table. Cite footnotes back to the underlying commits/PRs."
    );
    let (_, t) = prompt_get("reckon", &args(&[("path", "a.py")])).unwrap();
    assert!(t.starts_with("Use the Reckon MCP server to surface what's known about the code at `a.py`. Steps:\n1. Call `reckon.read_memoir` with `path=a.py`."));
    let (_, t) = prompt_get("reckon", &args(&[("path", "a.py"), ("lines", "42")])).unwrap();
    assert!(t.contains("`a.py`, lines 42. Steps:"));
    let (_, t) = prompt_get("reckon-search", &args(&[("query", "retry")])).unwrap();
    assert_eq!(t, "Call `reckon.search_postmortems` with `query=\"retry\"` and render the top results as a ranked list with id, date, score, and snippet.");
    let (_, t) = prompt_get("reckon-check", &args(&[("diff", "X")])).unwrap();
    assert!(t.ends_with("DIFF:\n```diff\nX\n```"));
    // The last value given for an argument wins.
    let (_, t) = prompt_get("reckon-memoir", &args(&[("path", "a"), ("path", "b")])).unwrap();
    assert_eq!(t, "Call `reckon.read_memoir` with `path=b` and render the markdown verbatim.");
}

#[test]
fn range_halves() {
    assert_eq!(parse_range_start("27-28"), "27");
    assert_eq!(parse_range_end("27-28"), "28");
    assert_eq!(parse_range_start(" 42 "), "42");
    assert_eq!(parse_range_end(" 42 "), "42");
    assert_eq!(parse_range_end("1-2-3"), "2-3");
    assert_eq!(parse_range_start(""), "");
}

fn memoir_with(tw_lines: [usize; 2], body: &str) -> ParsedMemoir {
    ParsedMemoir {
        frontmatter: MemoirFrontmatter {
            module: "payments".to_string(),
            last_updated: "now".to_string(),
            last_commit: "abc1234".to_string(),
            evidence_tier: "strong".to_string(),
            tripwires: vec![TripwireSpec {
                id: "TW-001".to_string(),
                region: RegionSpec { file: "payments/retry.py".to_string(), lines: tw_lines },
                incident: "IR-117".to_string(),
                guarding_test: "t".to_string(),
                summary: "keep the key".to_string(),
            }],
        },
        body: body.to_string(),
    }
}

#[test]
fn explain_markdown_with_guarding_tripwire() {
    let blame = vec![BlameLine {
        line: 27,
        sha: "abcdef1234".to_string(),
        short_sha: "abcdef1".to_string(),
        summary: "persist key".to_string(),
        author: "kw".to_string(),
    }];
    let m = memoir_with([27, 28], "body");
    let md = explain_markdown("payments/retry.py", 27, 28, Some(&m), &blame);
    assert_eq!(
        md,
        "# Why `payments/retry.py:27\u{2013}28`\n\n**This range is guarded by tripwire `TW-001` (incident IR-117).** The memoir records: _\"keep the key\"_ See the Scars section of [payments/MEMOIR.md](./payments/MEMOIR.md).\n\n## Blame\n\n- L27: `abcdef1` \u{2014} kw: *persist key*\n\n## Memoir excerpt\n\nbody\n\n"
    );
    // A tripwire outside the range is not mentioned; no memoir, no excerpt.
    let far = memoir_with([1, 2], "body");
    let md = explain_markdown("p.py", 27, 28, Some(&far), &Vec::new());
    assert!(!md.contains("guarded"));
    let md = explain_markdown("p.py", 3, 3, None, &Vec::new());
    assert_eq!(md, "# Why `p.py:3\u{2013}3`\n\n## Blame\n\n\n");
}

#[test]
fn explain_excerpt_is_cut_at_800_characters() {
    let body = "z".repeat(900);
    let m = memoir_with([1, 1], &body);
    let md = explain_markdown("p.py", 5, 6, Some(&m), &Vec::new());
    let excerpt = md.split("## Memoir excerpt\n\n").nth(1).unwrap();
    assert_eq!(excerpt, format!("{}\u{2026}\n\n", "z".repeat(800)));
}
