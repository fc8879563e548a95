//! The decisions of the Reckon MCP server: which JSON-RPC methods and
//! tools it answers, the tools and prompts (slash commands) it offers,
//! the text of each prompt, and the markdown of `reckon.explain`.
//! Reading requests and writing JSON stays with the server binary.

use vstd::prelude::*;
use crate::config::{debug_path, debug_quoted_path};
use crate::git::BlameLine;
use crate::memoir::ParsedMemoir;
use crate::number::{decimal, push_usize};
use crate::text::{chars_of, ellipsize, ellipsize_spec, push_str, string_of, trim, trim_seq};
use crate::Error;

verus! {

/// MCP protocol revision the server speaks.
pub const PROTOCOL_VERSION: &'static str = "2024-11-05";

/// What the server tells its host in its `initialize` answer.
pub const SERVER_INSTRUCTIONS: &'static str = "Reckon gives every codebase a persistent, version-controlled memory. Five tools: read_memoir, update_memoir, explain, check_diff, search_postmortems. In Review mode, ALWAYS call reckon.check_diff before approving a change.";

/// A JSON-RPC error answer.
#[derive(Debug, Clone)]
pub struct McpError {
    pub code: i32,
    pub message: String,
}

impl McpError {
    /// Unknown method, tool or prompt: code -32601.
    pub fn method_not_found(method: &str) -> (res: Self)
        ensures
            res.code == -32601,
            res.message@ == "method not found: "@ + method@,
    {
        let mut m = "method not found: ".to_owned();
        push_str(&mut m, method);
        McpError { code: -32601, message: m }
    }

    /// Malformed parameters: code -32602.
    pub fn invalid_params(msg: &str) -> (res: Self)
        ensures
            res.code == -32602,
            res.message@ == msg@,
    {
        McpError { code: -32602, message: msg.to_owned() }
    }

    /// Failure while serving a request: code -32603.
    pub fn internal(msg: &str) -> (res: Self)
        ensures
            res.code == -32603,
            res.message@ == msg@,
    {
        McpError { code: -32603, message: msg.to_owned() }
    }

    /// A library error while serving a request.
    pub fn from_error(e: &Error) -> (res: Self)
        ensures
            res.code == -32603,
            res.message@ == e.message_spec(),
    {
        let m = e.message();
        McpError::internal(m.as_str())
    }
}

/// The JSON-RPC methods the server answers.
#[derive(Debug, Clone, Copy, PartialEq, Eq, Structural)]
pub enum Route {
    Initialize,
    Ping,
    ResourcesList,
    ResourceTemplatesList,
    PromptsList,
    PromptsGet,
    ToolsList,
    ToolsCall,
}

pub open spec fn route_spec(method: Seq<char>) -> Option<Route> {
    if method == "initialize"@ {
        Some(Route::Initialize)
    } else if method == "ping"@ {
        Some(Route::Ping)
    } else if method == "resources/list"@ {
        Some(Route::ResourcesList)
    } else if method == "resources/templates/list"@ {
        Some(Route::ResourceTemplatesList)
    } else if method == "prompts/list"@ {
        Some(Route::PromptsList)
    } else if method == "prompts/get"@ {
        Some(Route::PromptsGet)
    } else if method == "tools/list"@ {
        Some(Route::ToolsList)
    } else if method == "tools/call"@ {
        Some(Route::ToolsCall)
    } else {
        None
    }
}

fn is(s: &str, lit: &str) -> (res: bool)
    ensures
        res == (s@ == lit@),
{
    crate::text::seq_eq(&chars_of(s), &chars_of(lit))
}

/// Which method a request names; any other is refused as not found.
pub fn route(method: &str) -> (res: Result<Route, McpError>)
    ensures
        match res {
            Ok(r) => route_spec(method@) == Some(r),
            Err(e) => route_spec(method@) is None && e.code == -32601 && e.message@
                == "method not found: "@ + method@,
        },
{
    if is(method, "initialize") {
        Ok(Route::Initialize)
    } else if is(method, "ping") {
        Ok(Route::Ping)
    } else if is(method, "resources/list") {
        Ok(Route::ResourcesList)
    } else if is(method, "resources/templates/list") {
        Ok(Route::ResourceTemplatesList)
    } else if is(method, "prompts/list") {
        Ok(Route::PromptsList)
    } else if is(method, "prompts/get") {
        Ok(Route::PromptsGet)
    } else if is(method, "tools/list") {
        Ok(Route::ToolsList)
    } else if is(method, "tools/call") {
        Ok(Route::ToolsCall)
    } else {
        Err(McpError::method_not_found(method))
    }
}

/// The five tools.
#[derive(Debug, Clone, Copy, PartialEq, Eq, Structural)]
pub enum ToolKind {
    ReadMemoir,
    UpdateMemoir,
    Explain,
    CheckDiff,
    SearchPostmortems,
}

/// The tool a `tools/call` names, with or without the `reckon.` prefix.
pub open spec fn tool_route_spec(name: Seq<char>) -> Option<ToolKind> {
    if name == "reckon.read_memoir"@ || name == "read_memoir"@ {
        Some(ToolKind::ReadMemoir)
    } else if name == "reckon.update_memoir"@ || name == "update_memoir"@ {
        Some(ToolKind::UpdateMemoir)
    } else if name == "reckon.explain"@ || name == "explain"@ {
        Some(ToolKind::Explain)
    } else if name == "reckon.check_diff"@ || name == "check_diff"@ {
        Some(ToolKind::CheckDiff)
    } else if name == "reckon.search_postmortems"@ || name == "search_postmortems"@ {
        Some(ToolKind::SearchPostmortems)
    } else {
        None
    }
}

/// Which tool a call names; any other is refused as not found.
pub fn tool_route(name: &str) -> (res: Result<ToolKind, McpError>)
    ensures
        match res {
            Ok(k) => tool_route_spec(name@) == Some(k),
            Err(e) => tool_route_spec(name@) is None && e.code == -32601 && e.message@
                == "method not found: tool "@ + name@,
        },
{
    if is(name, "reckon.read_memoir") || is(name, "read_memoir") {
        Ok(ToolKind::ReadMemoir)
    } else if is(name, "reckon.update_memoir") || is(name, "update_memoir") {
        Ok(ToolKind::UpdateMemoir)
    } else if is(name, "reckon.explain") || is(name, "explain") {
        Ok(ToolKind::Explain)
    } else if is(name, "reckon.check_diff") || is(name, "check_diff") {
        Ok(ToolKind::CheckDiff)
    } else if is(name, "reckon.search_postmortems") || is(name, "search_postmortems") {
        Ok(ToolKind::SearchPostmortems)
    } else {
        let mut what = "tool ".to_owned();
        push_str(&mut what, name);
        let e = McpError::method_not_found(what.as_str());
        proof {
            reveal_strlit("method not found: ");
            reveal_strlit("tool ");
            reveal_strlit("method not found: tool ");
        }
        assert(e.message@ =~= "method not found: tool "@ + name@);
        Err(e)
    }
}

/// The JSON schema type of a tool argument.
#[derive(Debug, Clone, Copy)]
pub enum PropertyKind {
    /// A string.
    Text,
    /// An integer of at least `minimum`, with a default where one is given.
    Count { minimum: u64, default: Option<u64> },
    /// An inclusive `[start, end]` pair of 1-based line numbers.
    LineRange,
}

/// One argument of a tool's input schema.
#[derive(Debug, Clone)]
pub struct PropertySpec {
    pub name: String,
    pub kind: PropertyKind,
    pub description: Option<String>,
}

/// A tool as listed by `tools/list`.
#[derive(Debug, Clone)]
pub struct ToolSpec {
    pub name: String,
    pub description: String,
    /// The arguments, in declaration order.
    pub properties: Vec<PropertySpec>,
    /// The names of the arguments a call must give.
    pub required: Vec<String>,
}

#[verifier::ext_equal]
pub struct PropertyView {
    pub name: Seq<char>,
    pub kind: PropertyKind,
    pub description: Option<Seq<char>>,
}

#[verifier::ext_equal]
pub struct ToolView {
    pub name: Seq<char>,
    pub description: Seq<char>,
    pub properties: Seq<PropertyView>,
    pub required: Seq<Seq<char>>,
}

impl View for PropertySpec {
    type V = PropertyView;

    open spec fn view(&self) -> PropertyView {
        PropertyView {
            name: self.name@,
            kind: self.kind,
            description: match self.description {
                Some(d) => Some(d@),
                None => None,
            },
        }
    }
}

impl View for ToolSpec {
    type V = ToolView;

    open spec fn view(&self) -> ToolView {
        ToolView {
            name: self.name@,
            description: self.description@,
            properties: self.properties@.map_values(|p: PropertySpec| p@),
            required: self.required@.map_values(|r: String| r@),
        }
    }
}

pub open spec fn text_prop(name: Seq<char>, description: Seq<char>) -> PropertyView {
    PropertyView { name, kind: PropertyKind::Text, description: Some(description) }
}

/// The five tools, in the order `tools/list` gives them.
pub open spec fn tools_spec() -> Seq<ToolView> {
    seq![
        ToolView {
            name: "reckon.read_memoir"@,
            description: "Return the MEMOIR.md for the module containing `path`. Use when the user asks about a code region that already has a memoir."@,
            properties: seq![text_prop("path"@, "File or directory path within the repo."@)],
            required: seq!["path"@],
        },
        ToolView {
            name: "reckon.update_memoir"@,
            description: "Regenerate MEMOIR.md for the module containing `path` from indexed artifacts. Writes to disk atomically and returns the new markdown."@,
            properties: seq![text_prop("path"@, "File or directory path within the repo."@)],
            required: seq!["path"@],
        },
        ToolView {
            name: "reckon.explain"@,
            description: "Grounded explanation of a code range. Pulls the memoir if relevant, supplements with live artifact lookup (git blame + linked PRs), returns markdown with footnoted source references."@,
            properties: seq![
                text_prop("repo"@, "Optional repo root override."@),
                text_prop("path"@, "File path within the repo."@),
                PropertyView {
                    name: "range"@,
                    kind: PropertyKind::LineRange,
                    description: Some("Inclusive [start, end] line range, 1-indexed."@),
                },
            ],
            required: seq!["path"@, "range"@],
        },
        ToolView {
            name: "reckon.check_diff"@,
            description: "Match a unified diff against the tripwire registry. Returns one warning per regression match. THIS IS THE HERO TOOL \u{2014} call it from Bob's Review mode before approving any change."@,
            properties: seq![
                PropertyView { name: "repo"@, kind: PropertyKind::Text, description: None },
                text_prop("path"@, "Optional file path the diff applies to."@),
                text_prop("diff"@, "Unified diff text."@),
            ],
            required: seq!["diff"@],
        },
        ToolView {
            name: "reckon.search_postmortems"@,
            description: "Semantic search over the postmortem corpus. Returns ranked matches with id, title, date, score, and a snippet."@,
            properties: seq![
                PropertyView { name: "query"@, kind: PropertyKind::Text, description: None },
                PropertyView {
                    name: "k"@,
                    kind: PropertyKind::Count { minimum: 1, default: Some(5u64) },
                    description: None,
                },
            ],
            required: seq!["query"@],
        },
    ]
}

fn prop(name: &str, kind: PropertyKind, description: Option<&str>) -> (res: PropertySpec)
    ensures
        res@ == (PropertyView {
            name: name@,
            kind,
            description: match description {
                Some(d) => Some(d@),
                None => None,
            },
        }),
{
    let d = match description {
        Some(d) => Some(d.to_owned()),
        None => None,
    };
    PropertySpec { name: name.to_owned(), kind, description: d }
}

fn owned_all(names: &[&str]) -> (res: Vec<String>)
    ensures
        res@.map_values(|r: String| r@) == names@.map_values(|n: &str| n@),
{
    let mut out: Vec<String> = Vec::new();
    let mut i: usize = 0;
    while i < names.len()
        invariant
            i <= names@.len(),
            out@.map_values(|r: String| r@) == names@.take(i as int).map_values(|n: &str| n@),
        decreases names.len() - i,
    {
        let ghost before = out@.map_values(|r: String| r@);
        let o = names[i].to_owned();
        out.push(o);
        assert(out@.map_values(|r: String| r@) =~= before.push(names@[i as int]@));
        assert(names@.take(i + 1) =~= names@.take(i as int).push(names@[i as int]));
        assert(out@.map_values(|r: String| r@) =~= names@.take(i + 1).map_values(|n: &str| n@));
        i = i + 1;
    }
    assert(names@.take(names@.len() as int) =~= names@);
    out
}

fn tool(name: &str, description: &str, properties: Vec<PropertySpec>, required: &[&str]) -> (res:
    ToolSpec)
    ensures
        res@ == (ToolView {
            name: name@,
            description: description@,
            properties: properties@.map_values(|p: PropertySpec| p@),
            required: required@.map_values(|n: &str| n@),
        }),
{
    ToolSpec {
        name: name.to_owned(),
        description: description.to_owned(),
        properties,
        required: owned_all(required),
    }
}

/// The tools the server offers, with their input schemas.
pub fn tool_list() -> (res: Vec<ToolSpec>)
    ensures
        res@.map_values(|t: ToolSpec| t@) == tools_spec(),
{
    let mut tools: Vec<ToolSpec> = Vec::new();
    let mut p1: Vec<PropertySpec> = Vec::new();
    p1.push(prop("path", PropertyKind::Text, Some("File or directory path within the repo.")));
    tools.push(
        tool(
            "reckon.read_memoir",
            "Return the MEMOIR.md for the module containing `path`. Use when the user asks about a code region that already has a memoir.",
            p1,
            &["path"],
        ),
    );
    let mut p2: Vec<PropertySpec> = Vec::new();
    p2.push(prop("path", PropertyKind::Text, Some("File or directory path within the repo.")));
    tools.push(
        tool(
            "reckon.update_memoir",
            "Regenerate MEMOIR.md for the module containing `path` from indexed artifacts. Writes to disk atomically and returns the new markdown.",
            p2,
            &["path"],
        ),
    );
    let mut p3: Vec<PropertySpec> = Vec::new();
    p3.push(prop("repo", PropertyKind::Text, Some("Optional repo root override.")));
    p3.push(prop("path", PropertyKind::Text, Some("File path within the repo.")));
    p3.push(
        prop("range", PropertyKind::LineRange, Some("Inclusive [start, end] line range, 1-indexed.")),
    );
    tools.push(
        tool(
            "reckon.explain",
            "Grounded explanation of a code range. Pulls the memoir if relevant, supplements with live artifact lookup (git blame + linked PRs), returns markdown with footnoted source references.",
            p3,
            &["path", "range"],
        ),
    );
    let mut p4: Vec<PropertySpec> = Vec::new();
    p4.push(prop("repo", PropertyKind::Text, None));
    p4.push(prop("path", PropertyKind::Text, Some("Optional file path the diff applies to.")));
    p4.push(prop("diff", PropertyKind::Text, Some("Unified diff text.")));
    tools.push(
        tool(
            "reckon.check_diff",
            "Match a unified diff against the tripwire registry. Returns one warning per regression match. THIS IS THE HERO TOOL \u{2014} call it from Bob's Review mode before approving any change.",
            p4,
            &["diff"],
        ),
    );
    let mut p5: Vec<PropertySpec> = Vec::new();
    p5.push(prop("query", PropertyKind::Text, None));
    p5.push(prop("k", PropertyKind::Count { minimum: 1, default: Some(5) }, None));
    tools.push(
        tool(
            "reckon.search_postmortems",
            "Semantic search over the postmortem corpus. Returns ranked matches with id, title, date, score, and a snippet.",
            p5,
            &["query"],
        ),
    );
    assert(tools@.map_values(|t: ToolSpec| t@) =~~= tools_spec());
    tools
}

/// One argument of a prompt.
#[derive(Debug, Clone)]
pub struct PromptArgument {
    pub name: String,
    pub description: String,
    pub required: bool,
}

/// A prompt (slash command) as listed by `prompts/list`.
#[derive(Debug, Clone)]
pub struct PromptSpec {
    pub name: String,
    pub title: String,
    pub description: String,
    pub arguments: Vec<PromptArgument>,
}

#[verifier::ext_equal]
pub struct PromptArgumentView {
    pub name: Seq<char>,
    pub description: Seq<char>,
    pub required: bool,
}

#[verifier::ext_equal]
pub struct PromptView {
    pub name: Seq<char>,
    pub title: Seq<char>,
    pub description: Seq<char>,
    pub arguments: Seq<PromptArgumentView>,
}

impl View for PromptArgument {
    type V = PromptArgumentView;

    open spec fn view(&self) -> PromptArgumentView {
        PromptArgumentView {
            name: self.name@,
            description: self.description@,
            required: self.required,
        }
    }
}

impl View for PromptSpec {
    type V = PromptView;

    open spec fn view(&self) -> PromptView {
        PromptView {
            name: self.name@,
            title: self.title@,
            description: self.description@,
            arguments: self.arguments@.map_values(|a: PromptArgument| a@),
        }
    }
}

pub open spec fn arg_view(name: Seq<char>, description: Seq<char>, required: bool) -> PromptArgumentView {
    PromptArgumentView { name, description, required }
}

/// The six prompts, in the order `prompts/list` gives them.
pub open spec fn prompts_spec() -> Seq<PromptView> {
    seq![
        PromptView {
            name: "reckon"@,
            title: "reckon"@,
            description: "Show what Reckon knows about a code region. Renders MEMOIR.md + decision trail + tripwire status."@,
            arguments: seq![
                arg_view("path"@, "File path within the repo (e.g. payments/retry.py)."@, true),
                arg_view("lines"@, "Optional line range (e.g. 27-28 or 42)."@, false),
            ],
        },
        PromptView {
            name: "reckon-why"@,
            title: "reckon why"@,
            description: "Grounded \"why is this code like this?\" \u{2014} pulls memoir, blame, linked PRs."@,
            arguments: seq![
                arg_view("path"@, "File path within the repo."@, true),
                arg_view("lines"@, "Line range, e.g. 27-28 or 42."@, true),
            ],
        },
        PromptView {
            name: "reckon-check"@,
            title: "reckon check"@,
            description: "Match the staged diff against the tripwire registry. Hero command in Review mode."@,
            arguments: seq![arg_view("diff"@, "Unified diff text (paste or supply)."@, true)],
        },
        PromptView {
            name: "reckon-memoir"@,
            title: "reckon memoir"@,
            description: "Render the MEMOIR.md for the module containing this path."@,
            arguments: seq![arg_view("path"@, "File or directory within the repo."@, true)],
        },
        PromptView {
            name: "reckon-memoir-regen"@,
            title: "reckon memoir --regen"@,
            description: "Regenerate the MEMOIR.md from the latest artifacts and write it to disk."@,
            arguments: seq![arg_view("path"@, "File or directory within the repo."@, true)],
        },
        PromptView {
            name: "reckon-search"@,
            title: "reckon search-postmortems"@,
            description: "Semantic search over the postmortem corpus."@,
            arguments: seq![arg_view("query"@, "Free-text query."@, true)],
        },
    ]
}

fn parg(name: &str, description: &str, required: bool) -> (res: PromptArgument)
    ensures
        res@ == arg_view(name@, description@, required),
{
    PromptArgument { name: name.to_owned(), description: description.to_owned(), required }
}

fn prompt(name: &str, title: &str, description: &str, arguments: Vec<PromptArgument>) -> (res:
    PromptSpec)
    ensures
        res@ == (PromptView {
            name: name@,
            title: title@,
            description: description@,
            arguments: arguments@.map_values(|a: PromptArgument| a@),
        }),
{
    PromptSpec {
        name: name.to_owned(),
        title: title.to_owned(),
        description: description.to_owned(),
        arguments,
    }
}

/// The prompts (slash commands) the server offers.
pub fn prompt_list() -> (res: Vec<PromptSpec>)
    ensures
        res@.map_values(|p: PromptSpec| p@) == prompts_spec(),
{
    let mut out: Vec<PromptSpec> = Vec::new();
    let mut a1: Vec<PromptArgument> = Vec::new();
    a1.push(parg("path", "File path within the repo (e.g. payments/retry.py).", true));
    a1.push(parg("lines", "Optional line range (e.g. 27-28 or 42).", false));
    out.push(
        prompt(
            "reckon",
            "reckon",
            "Show what Reckon knows about a code region. Renders MEMOIR.md + decision trail + tripwire status.",
            a1,
        ),
    );
    let mut a2: Vec<PromptArgument> = Vec::new();
    a2.push(parg("path", "File path within the repo.", true));
    a2.push(parg("lines", "Line range, e.g. 27-28 or 42.", true));
    out.push(
        prompt(
            "reckon-why",
            "reckon why",
            "Grounded \"why is this code like this?\" \u{2014} pulls memoir, blame, linked PRs.",
            a2,
        ),
    );
    let mut a3: Vec<PromptArgument> = Vec::new();
    a3.push(parg("diff", "Unified diff text (paste or supply).", true));
    out.push(
        prompt(
            "reckon-check",
            "reckon check",
            "Match the staged diff against the tripwire registry. Hero command in Review mode.",
            a3,
        ),
    );
    let mut a4: Vec<PromptArgument> = Vec::new();
    a4.push(parg("path", "File or directory within the repo.", true));
    out.push(
        prompt(
            "reckon-memoir",
            "reckon memoir",
            "Render the MEMOIR.md for the module containing this path.",
            a4,
        ),
    );
    let mut a5: Vec<PromptArgument> = Vec::new();
    a5.push(parg("path", "File or directory within the repo.", true));
    out.push(
        prompt(
            "reckon-memoir-regen",
            "reckon memoir --regen",
            "Regenerate the MEMOIR.md from the latest artifacts and write it to disk.",
            a5,
        ),
    );
    let mut a6: Vec<PromptArgument> = Vec::new();
    a6.push(parg("query", "Free-text query.", true));
    out.push(
        prompt(
            "reckon-search",
            "reckon search-postmortems",
            "Semantic search over the postmortem corpus.",
            a6,
        ),
    );
    assert(out@.map_values(|p: PromptSpec| p@) =~~= prompts_spec());
    out
}

/// The value given for argument `key` (the last one, if given twice), or
/// the empty text.
pub open spec fn arg_spec(args: Seq<(String, String)>, key: Seq<char>) -> Seq<char>
    decreases args.len(),
{
    if args.len() == 0 {
        Seq::empty()
    } else if args.last().0@ == key {
        args.last().1@
    } else {
        arg_spec(args.drop_last(), key)
    }
}

fn arg(args: &Vec<(String, String)>, key: &str) -> (res: String)
    ensures
        res@ == arg_spec(args@, key@),
{
    let mut i = args.len();
    assert(args@.take(i as int) =~= args@);
    while i > 0
        invariant
            i <= args@.len(),
            arg_spec(args@, key@) == arg_spec(args@.take(i as int), key@),
        decreases i,
    {
        assert(args@.take(i as int).drop_last() =~= args@.take(i - 1));
        if is(args[i - 1].0.as_str(), key) {
            return args[i - 1].1.clone();
        }
        i = i - 1;
    }
    assert(args@.take(0) =~= Seq::<(String, String)>::empty());
    String::new()
}

/// The start of a line range `a-b` (or of a single line `n`), trimmed.
pub open spec fn range_start_spec(s: Seq<char>) -> Seq<char> {
    match crate::text::find_seq(s, "-"@) {
        Some(k) => trim_seq(s.take(k)),
        None => trim_seq(s),
    }
}

/// The end of a line range `a-b` (or the single line `n`), trimmed.
pub open spec fn range_end_spec(s: Seq<char>) -> Seq<char> {
    match crate::text::find_seq(s, "-"@) {
        Some(k) => trim_seq(s.skip(k + 1)),
        None => trim_seq(s),
    }
}

pub fn parse_range_start(s: &str) -> (res: String)
    ensures
        res@ == range_start_spec(s@),
{
    proof {
        reveal_strlit("-");
    }
    let v = chars_of(s);
    match crate::text::find_str(&v, "-") {
        Some(k) => {
            proof {
                crate::text::lemma_find_from_bounds(v@, "-"@, 0);
            }
            let head = crate::text::slice_of(&v, 0, k);
            assert(head@ =~= s@.take(k as int));
            string_of(&trim(&head))
        },
        None => string_of(&trim(&v)),
    }
}

pub fn parse_range_end(s: &str) -> (res: String)
    ensures
        res@ == range_end_spec(s@),
{
    proof {
        reveal_strlit("-");
    }
    let v = chars_of(s);
    match crate::text::find_str(&v, "-") {
        Some(k) => {
            proof {
                crate::text::lemma_find_from_bounds(v@, "-"@, 0);
            }
            let tail = crate::text::slice_of(&v, k + 1, v.len());
            assert(tail@ =~= s@.skip(k + 1));
            string_of(&trim(&tail))
        },
        None => string_of(&trim(&v)),
    }
}

/// The description and the text of the prompt `name` with arguments
/// `args` (missing arguments read as empty); `None` for an unknown prompt.
pub open spec fn prompt_text_spec(name: Seq<char>, args: Seq<(String, String)>) -> Option<
    (Seq<char>, Seq<char>),
> {
    let path = arg_spec(args, "path"@);
    let lines = arg_spec(args, "lines"@);
    if name == "reckon"@ {
        Some(
            (
                "Show what Reckon knows about a code region."@,
                "Use the Reckon MCP server to surface what's known about the code at `"@ + path
                    + "`"@ + (if lines.len() == 0 {
                    Seq::empty()
                } else {
                    ", lines "@ + lines
                }) + ". Steps:\n1. Call `reckon.read_memoir` with `path="@ + path
                    + "`. Render the markdown verbatim.\n2. If the user supplied a line range, call `reckon.explain` with that range to add blame and footnotes.\n3. Quote any matching Scar verbatim \u{2014} never paraphrase the memoir."@,
            ),
        )
    } else if name == "reckon-why"@ {
        Some(
            (
                "Grounded \"why is this code like this?\""@,
                "Call `reckon.explain` with `path="@ + path + "` and `range=["@ + range_start_spec(
                    lines,
                ) + ", "@ + range_end_spec(lines) + "]` (parse `"@ + lines
                    + "`), then present the result with the memoir excerpt quoted verbatim and the decision trail as a table. Cite footnotes back to the underlying commits/PRs."@,
            ),
        )
    } else if name == "reckon-check"@ {
        Some(
            (
                "Run the staged diff through the tripwire registry."@,
                "Call `reckon.check_diff` with the diff below. If `warnings.length > 0`, surface each one as a card before doing anything else \u{2014} quote `memoir_quote` verbatim, show `guarding_test` and `test_assertion`, and offer the actions [Revert this hunk] [Acknowledge and continue] [Show Bob's trace]. If empty, render a single-line confirmation.\n\nDIFF:\n```diff\n"@
                    + arg_spec(args, "diff"@) + "\n```"@,
            ),
        )
    } else if name == "reckon-memoir"@ {
        Some(
            (
                "Render the MEMOIR.md."@,
                "Call `reckon.read_memoir` with `path="@ + path
                    + "` and render the markdown verbatim."@,
            ),
        )
    } else if name == "reckon-memoir-regen"@ {
        Some(
            (
                "Regenerate the MEMOIR.md from the latest artifacts."@,
                "Call `reckon.update_memoir` with `path="@ + path
                    + "`. Report which sections changed by diffing the new memoir against the previous one if available."@,
            ),
        )
    } else if name == "reckon-search"@ {
        Some(
            (
                "Semantic search over postmortems."@,
                "Call `reckon.search_postmortems` with `query=\""@ + arg_spec(args, "query"@)
                    + "\"` and render the top results as a ranked list with id, date, score, and snippet."@,
            ),
        )
    } else {
        None
    }
}

/// `prompts/get`: the description and text of prompt `name` filled in
/// with `args`; an unknown prompt is refused as not found.
pub fn prompt_get(name: &str, args: &Vec<(String, String)>) -> (res: Result<(String, String), McpError>)
    ensures
        match res {
            Ok((d, t)) => prompt_text_spec(name@, args@) == Some((d@, t@)),
            Err(e) => prompt_text_spec(name@, args@) is None && e.code == -32601 && e.message@
                == "method not found: prompt "@ + name@,
        },
{
    let path = arg(args, "path");
    let lines = arg(args, "lines");
    if is(name, "reckon") {
        let mut t = "Use the Reckon MCP server to surface what's known about the code at `".to_owned();
        push_str(&mut t, path.as_str());
        push_str(&mut t, "`");
        if chars_of(lines.as_str()).len() > 0 {
            push_str(&mut t, ", lines ");
            push_str(&mut t, lines.as_str());
        }
        push_str(&mut t, ". Steps:\n1. Call `reckon.read_memoir` with `path=");
        push_str(&mut t, path.as_str());
        push_str(
            &mut t,
            "`. Render the markdown verbatim.\n2. If the user supplied a line range, call `reckon.explain` with that range to add blame and footnotes.\n3. Quote any matching Scar verbatim \u{2014} never paraphrase the memoir.",
        );
        let ghost want = prompt_text_spec(name@, args@)->Some_0.1;
        assert(t@ =~= want);
        Ok(("Show what Reckon knows about a code region.".to_owned(), t))
    } else if is(name, "reckon-why") {
        let mut t = "Call `reckon.explain` with `path=".to_owned();
        push_str(&mut t, path.as_str());
        push_str(&mut t, "` and `range=[");
        push_str(&mut t, parse_range_start(lines.as_str()).as_str());
        push_str(&mut t, ", ");
        push_str(&mut t, parse_range_end(lines.as_str()).as_str());
        push_str(&mut t, "]` (parse `");
        push_str(&mut t, lines.as_str());
        push_str(
            &mut t,
            "`), then present the result with the memoir excerpt quoted verbatim and the decision trail as a table. Cite footnotes back to the underlying commits/PRs.",
        );
        let ghost want = prompt_text_spec(name@, args@)->Some_0.1;
        assert(t@ =~= want);
        Ok(("Grounded \"why is this code like this?\"".to_owned(), t))
    } else if is(name, "reckon-check") {
        let mut t = "Call `reckon.check_diff` with the diff below. If `warnings.length > 0`, surface each one as a card before doing anything else \u{2014} quote `memoir_quote` verbatim, show `guarding_test` and `test_assertion`, and offer the actions [Revert this hunk] [Acknowledge and continue] [Show Bob's trace]. If empty, render a single-line confirmation.\n\nDIFF:\n```diff\n".to_owned();
        push_str(&mut t, arg(args, "diff").as_str());
        push_str(&mut t, "\n```");
        let ghost want = prompt_text_spec(name@, args@)->Some_0.1;
        assert(t@ =~= want);
        Ok(("Run the staged diff through the tripwire registry.".to_owned(), t))
    } else if is(name, "reckon-memoir") {
        let mut t = "Call `reckon.read_memoir` with `path=".to_owned();
        push_str(&mut t, path.as_str());
        push_str(&mut t, "` and render the markdown verbatim.");
        let ghost want = prompt_text_spec(name@, args@)->Some_0.1;
        assert(t@ =~= want);
        Ok(("Render the MEMOIR.md.".to_owned(), t))
    } else if is(name, "reckon-memoir-regen") {
        let mut t = "Call `reckon.update_memoir` with `path=".to_owned();
        push_str(&mut t, path.as_str());
        push_str(
            &mut t,
            "`. Report which sections changed by diffing the new memoir against the previous one if available.",
        );
        let ghost want = prompt_text_spec(name@, args@)->Some_0.1;
        assert(t@ =~= want);
        Ok(("Regenerate the MEMOIR.md from the latest artifacts.".to_owned(), t))
    } else if is(name, "reckon-search") {
        let mut t = "Call `reckon.search_postmortems` with `query=\"".to_owned();
        push_str(&mut t, arg(args, "query").as_str());
        push_str(
            &mut t,
            "\"` and render the top results as a ranked list with id, date, score, and snippet.",
        );
        let ghost want = prompt_text_spec(name@, args@)->Some_0.1;
        assert(t@ =~= want);
        Ok(("Semantic search over postmortems.".to_owned(), t))
    } else {
        let mut what = "prompt ".to_owned();
        push_str(&mut what, name);
        let e = McpError::method_not_found(what.as_str());
        proof {
            reveal_strlit("method not found: ");
            reveal_strlit("prompt ");
            reveal_strlit("method not found: prompt ");
        }
        assert(e.message@ =~= "method not found: prompt "@ + name@);
        Err(e)
    }
}

/// The answer to `reckon.read_memoir` for a module without a memoir.
pub fn missing_memoir(module_dir: &str) -> (res: McpError)
    ensures
        res.code == -32602,
        res.message@ == "No MEMOIR.md exists for module "@ + debug_quoted_path(module_dir@)
            + ". Call reckon.update_memoir first."@,
{
    let mut m = "No MEMOIR.md exists for module ".to_owned();
    push_str(&mut m, debug_path(module_dir).as_str());
    push_str(&mut m, ". Call reckon.update_memoir first.");
    McpError::invalid_params(m.as_str())
}

pub open spec fn dec(n: int) -> Seq<char> {
    decimal(n as nat)
}

/// Whether a tripwire's region meets the lines `start..=end`.
pub open spec fn guards(t: crate::memoir::TripwireSpec, start: usize, end: usize) -> bool {
    t.region.lines[0] <= end && t.region.lines[1] >= start
}

pub open spec fn guard_note(t: crate::memoir::TripwireSpec, module: Seq<char>) -> Seq<char> {
    "**This range is guarded by tripwire `"@ + t.id@ + "` (incident "@ + t.incident@
        + ").** The memoir records: _\""@ + t.summary@
        + "\"_ See the Scars section of ["@ + module + "/MEMOIR.md](./"@ + module
        + "/MEMOIR.md).\n\n"@
}

/// Notes for the first `k` tripwires that guard `start..=end`.
pub open spec fn guard_notes(
    ts: Seq<crate::memoir::TripwireSpec>,
    module: Seq<char>,
    start: usize,
    end: usize,
    k: int,
) -> Seq<char>
    decreases k,
{
    if k <= 0 {
        Seq::empty()
    } else {
        guard_notes(ts, module, start, end, k - 1) + if guards(ts[k - 1], start, end) {
            guard_note(ts[k - 1], module)
        } else {
            Seq::empty()
        }
    }
}

pub open spec fn blame_line_spec(b: BlameLine) -> Seq<char> {
    "- L"@ + dec(b.line as int) + ": `"@ + b.short_sha@ + "` \u{2014} "@ + b.author@ + ": *"@
        + b.summary@ + "*\n"@
}

pub open spec fn blame_lines(bs: Seq<BlameLine>, k: int) -> Seq<char>
    decreases k,
{
    if k <= 0 {
        Seq::empty()
    } else {
        blame_lines(bs, k - 1) + blame_line_spec(bs[k - 1])
    }
}

/// The markdown of `reckon.explain` for lines `start..=end` of the file
/// shown as `path`: the tripwires of the module's memoir that guard the
/// range, the blame of the range, and the start of the memoir's body.
pub open spec fn explain_spec(
    path: Seq<char>,
    start: usize,
    end: usize,
    memoir: Option<ParsedMemoir>,
    blame: Seq<BlameLine>,
) -> Seq<char> {
    "# Why `"@ + path + ":"@ + dec(start as int) + "\u{2013}"@ + dec(end as int) + "`\n\n"@
        + match memoir {
        Some(p) => guard_notes(
            p.frontmatter.tripwires@,
            p.frontmatter.module@,
            start,
            end,
            p.frontmatter.tripwires@.len() as int,
        ),
        None => Seq::empty(),
    } + "## Blame\n\n"@ + blame_lines(blame, blame.len() as int) + "\n"@ + match memoir {
        Some(p) => "## Memoir excerpt\n\n"@ + ellipsize_spec(p.body@, 800) + "\n\n"@,
        None => Seq::empty(),
    }
}

/// `reckon.explain`: why lines `start..=end` of `path` are as they are.
pub fn explain_markdown(
    path: &str,
    start: usize,
    end: usize,
    memoir: Option<&ParsedMemoir>,
    blame: &Vec<BlameLine>,
) -> (res: String)
    ensures
        res@ == explain_spec(
            path@,
            start,
            end,
            match memoir {
                Some(p) => Some(*p),
                None => None,
            },
            blame@,
        ),
{
    let mut md = "# Why `".to_owned();
    push_str(&mut md, path);
    push_str(&mut md, ":");
    push_usize(&mut md, start);
    push_str(&mut md, "\u{2013}");
    push_usize(&mut md, end);
    push_str(&mut md, "`\n\n");
    let ghost head = md@;
    match memoir {
        Some(p) => {
            let ts = &p.frontmatter.tripwires;
            let module = p.frontmatter.module.as_str();
            let mut i: usize = 0;
            assert(md@ =~= head + guard_notes(ts@, module@, start, end, 0));
            while i < ts.len()
                invariant
                    i <= ts@.len(),
                    md@ == head + guard_notes(ts@, module@, start, end, i as int),
                decreases ts.len() - i,
            {
                let t = &ts[i];
                if t.region.lines[0] <= end && t.region.lines[1] >= start {
                    push_str(&mut md, "**This range is guarded by tripwire `");
                    push_str(&mut md, t.id.as_str());
                    push_str(&mut md, "` (incident ");
                    push_str(&mut md, t.incident.as_str());
                    push_str(&mut md, ").** The memoir records: _\"");
                    push_str(&mut md, t.summary.as_str());
                    push_str(&mut md, "\"_ See the Scars section of [");
                    push_str(&mut md, module);
                    push_str(&mut md, "/MEMOIR.md](./");
                    push_str(&mut md, module);
                    push_str(&mut md, "/MEMOIR.md).\n\n");
                }
                assert(md@ =~= head + guard_notes(ts@, module@, start, end, i + 1));
                i = i + 1;
            }
        },
        None => {
            assert(md@ =~= head + Seq::<char>::empty());
        },
    }
    push_str(&mut md, "## Blame\n\n");
    let ghost mid = md@;
    let mut k: usize = 0;
    assert(md@ =~= mid + blame_lines(blame@, 0));
    while k < blame.len()
        invariant
            k <= blame@.len(),
            md@ == mid + blame_lines(blame@, k as int),
        decreases blame.len() - k,
    {
        let b = &blame[k];
        push_str(&mut md, "- L");
        push_usize(&mut md, b.line);
        push_str(&mut md, ": `");
        push_str(&mut md, b.short_sha.as_str());
        push_str(&mut md, "` \u{2014} ");
        push_str(&mut md, b.author.as_str());
        push_str(&mut md, ": *");
        push_str(&mut md, b.summary.as_str());
        push_str(&mut md, "*\n");
        assert(md@ =~= mid + blame_lines(blame@, k + 1));
        k = k + 1;
    }
    push_str(&mut md, "\n");
    match memoir {
        Some(p) => {
            push_str(&mut md, "## Memoir excerpt\n\n");
            push_str(&mut md, ellipsize(&chars_of(p.body.as_str()), 800).as_str());
            push_str(&mut md, "\n\n");
        },
        None => {},
    }
    assert(md@ =~= explain_spec(
        path@,
        start,
        end,
        match memoir {
            Some(p) => Some(*p),
            None => None,
        },
        blame@,
    ));
    md
}

/// Every argument a tool requires is one it declares.
pub proof fn tool_requirements_declared()
    ensures
        forall|i: int, r: int|
            0 <= i < tools_spec().len() && 0 <= r < tools_spec()[i].required.len() ==> exists|
                q: int,
            |
                0 <= q < tools_spec()[i].properties.len() && (#[trigger] tools_spec()[i].properties[q]).name
                    == #[trigger] tools_spec()[i].required[r],
{
    let ts = tools_spec();
    assert(ts[0].properties[0].name == ts[0].required[0]);
    assert(ts[1].properties[0].name == ts[1].required[0]);
    assert(ts[2].properties[1].name == ts[2].required[0]);
    assert(ts[2].properties[2].name == ts[2].required[1]);
    assert(ts[3].properties[2].name == ts[3].required[0]);
    assert(ts[4].properties[0].name == ts[4].required[0]);
}

/// Every tool `tools/list` offers is served by `tools/call`, each by a
/// tool of its own.
pub proof fn listed_tools_are_served()
    ensures
        forall|i: int| 0 <= i < tools_spec().len() ==> #[trigger] tool_route_spec(tools_spec()[i].name) is Some,
        forall|i: int, j: int|
            0 <= i < j < tools_spec().len() ==> #[trigger] tool_route_spec(tools_spec()[i].name)
                != #[trigger] tool_route_spec(tools_spec()[j].name),
{
    reveal_strlit("reckon.read_memoir");
    reveal_strlit("read_memoir");
    reveal_strlit("reckon.update_memoir");
    reveal_strlit("update_memoir");
    reveal_strlit("reckon.explain");
    reveal_strlit("explain");
    reveal_strlit("reckon.check_diff");
    reveal_strlit("check_diff");
    reveal_strlit("reckon.search_postmortems");
    reveal_strlit("search_postmortems");
    let ts = tools_spec();
    assert("reckon.update_memoir"@[7] != "reckon.read_memoir"@[7]);
    assert("reckon.update_memoir"@.len() != "read_memoir"@.len());
    assert("reckon.explain"@.len() != "reckon.read_memoir"@.len());
    assert("reckon.explain"@.len() != "read_memoir"@.len());
    assert("reckon.explain"@.len() != "reckon.update_memoir"@.len());
    assert("reckon.explain"@.len() != "update_memoir"@.len());
    assert("reckon.check_diff"@[7] != "reckon.read_memoir"@[7]);
    assert("reckon.check_diff"@.len() != "read_memoir"@.len());
    assert("reckon.check_diff"@.len() != "reckon.update_memoir"@.len());
    assert("reckon.check_diff"@.len() != "update_memoir"@.len());
    assert("reckon.check_diff"@.len() != "reckon.explain"@.len());
    assert("reckon.check_diff"@.len() != "explain"@.len());
    assert("reckon.search_postmortems"@.len() != "reckon.read_memoir"@.len());
    assert("reckon.search_postmortems"@.len() != "read_memoir"@.len());
    assert("reckon.search_postmortems"@.len() != "reckon.update_memoir"@.len());
    assert("reckon.search_postmortems"@.len() != "update_memoir"@.len());
    assert("reckon.search_postmortems"@.len() != "reckon.explain"@.len());
    assert("reckon.search_postmortems"@.len() != "explain"@.len());
    assert("reckon.search_postmortems"@.len() != "reckon.check_diff"@.len());
    assert("reckon.search_postmortems"@.len() != "check_diff"@.len());
    assert(tool_route_spec(ts[0].name) == Some(ToolKind::ReadMemoir));
    assert(tool_route_spec(ts[1].name) == Some(ToolKind::UpdateMemoir));
    assert(tool_route_spec(ts[2].name) == Some(ToolKind::Explain));
    assert(tool_route_spec(ts[3].name) == Some(ToolKind::CheckDiff));
    assert(tool_route_spec(ts[4].name) == Some(ToolKind::SearchPostmortems));
}

/// `prompts/get` answers exactly the prompts `prompts/list` offers,
/// whatever arguments it is given.
pub proof fn listed_prompts_are_served(name: Seq<char>, args: Seq<(String, String)>)
    ensures
        prompt_text_spec(name, args) is Some <==> exists|i: int|
            0 <= i < prompts_spec().len() && (#[trigger] prompts_spec()[i]).name == name,
{
    let ps = prompts_spec();
    if prompt_text_spec(name, args) is Some {
        if name == "reckon"@ {
            assert(ps[0].name == name);
        } else if name == "reckon-why"@ {
            assert(ps[1].name == name);
        } else if name == "reckon-check"@ {
            assert(ps[2].name == name);
        } else if name == "reckon-memoir"@ {
            assert(ps[3].name == name);
        } else if name == "reckon-memoir-regen"@ {
            assert(ps[4].name == name);
        } else {
            assert(ps[5].name == name);
        }
    }
}

} // verus!
