//! `reckon install <host>`: which host is meant, the `mcpServers.reckon`
//! entry merged into its MCP configuration, and when the merge must be
//! refused.

use vstd::prelude::*;
use crate::cli::style::{painted_text, style_of, Style, Theme};
use crate::text::{chars_of, push_char, push_str, seq_eq};
use crate::Error;

verus! {

#[derive(Debug, Clone, Copy, PartialEq, Eq, Structural)]
pub enum Host {
    Bob,
    Claude,
    Cursor,
    Print,
}

/// ASCII lower case of one character.
pub open spec fn ascii_lower(c: char) -> char {
    if 'A' <= c && c <= 'Z' {
        ((c as u32) + 32) as char
    } else {
        c
    }
}

/// `s` with ASCII letters in lower case (std `str::to_ascii_lowercase`).
pub open spec fn ascii_lowercase(s: Seq<char>) -> Seq<char> {
    s.map_values(|c: char| ascii_lower(c))
}

fn lower_char(c: char) -> (res: char)
    ensures
        res == ascii_lower(c),
{
    if 'A' <= c && c <= 'Z' {
        let u = (c as u32) + 32;
        assert(0x61 <= u <= 0x7a);
        let b = u as u8;
        assert(b as u32 == u);
        let r = b as char;
        assert(r as u32 == u);
        r
    } else {
        c
    }
}

pub fn to_ascii_lowercase(s: &str) -> (res: String)
    ensures
        res@ == ascii_lowercase(s@),
{
    let v = chars_of(s);
    let mut out = String::new();
    let mut i: usize = 0;
    while i < v.len()
        invariant
            i <= v@.len(),
            out@ == ascii_lowercase(v@.take(i as int)),
        decreases v.len() - i,
    {
        push_char(&mut out, lower_char(v[i]));
        assert(ascii_lowercase(v@.take(i + 1)) =~= ascii_lowercase(v@.take(i as int)).push(
            ascii_lower(v@[i as int]),
        ));
        i = i + 1;
    }
    assert(v@.take(v@.len() as int) =~= v@);
    out
}

/// The host a name selects, case-insensitively; `None` for an unknown
/// name. (The desktop assistant host has no name accepted here.)
pub open spec fn host_spec(name: Seq<char>) -> Option<Host> {
    let n = ascii_lowercase(name);
    if n == "bob"@ {
        Some(Host::Bob)
    } else if n == "cursor"@ {
        Some(Host::Cursor)
    } else if n == "print"@ || n == "stdout"@ {
        Some(Host::Print)
    } else {
        None
    }
}

fn is(s: &str, lit: &str) -> (res: bool)
    ensures
        res == (s@ == lit@),
{
    seq_eq(&chars_of(s), &chars_of(lit))
}

impl Host {
    /// The host named `s`; an unknown name is refused with the list of
    /// known ones.
    pub fn parse(s: &str) -> (res: Result<Host, String>)
        ensures
            match res {
                Ok(h) => host_spec(s@) == Some(h),
                Err(m) => host_spec(s@) is None && m@ == "unknown host '"@ + ascii_lowercase(s@)
                    + "'. Try: bob | cursor | print"@,
            },
    {
        let n = to_ascii_lowercase(s);
        let ns = n.as_str();
        if is(ns, "bob") {
            Ok(Host::Bob)
        } else if is(ns, "cursor") {
            Ok(Host::Cursor)
        } else if is(ns, "print") || is(ns, "stdout") {
            Ok(Host::Print)
        } else {
            let mut m = "unknown host '".to_owned();
            push_str(&mut m, ns);
            push_str(&mut m, "'. Try: bob | cursor | print");
            Err(m)
        }
    }
}

impl core::str::FromStr for Host {
    type Err = String;

    fn from_str(s: &str) -> (res: Result<Host, String>)
        ensures
            match res {
                Ok(h) => host_spec(s@) == Some(h),
                Err(m) => host_spec(s@) is None && m@ == "unknown host '"@ + ascii_lowercase(s@)
                    + "'. Try: bob | cursor | print"@,
            },
    {
        Host::parse(s)
    }
}

pub struct InstallArgs {
    pub host: Host,
    pub force: bool,
    pub no_color: bool,
    /// Pin the server to this repository instead of `${workspaceFolder}`.
    pub repo_path: Option<String>,
}

/// The `RECKON_REPO` value of the server entry.
pub fn repo_value(repo_path: Option<&str>) -> (res: String)
    ensures
        res@ == match repo_path {
            Some(p) => p@,
            None => "${workspaceFolder}"@,
        },
{
    match repo_path {
        Some(p) => p.to_owned(),
        None => "${workspaceFolder}".to_owned(),
    }
}

/// The command the server entry runs.
pub const SERVER_COMMAND: &'static str = "reckon-mcp";

/// The description of the server entry.
pub const SERVER_DESCRIPTION: &'static str = "Persistent, version-controlled memory for the codebase.";

/// What an existing configuration holds under `mcpServers`.
#[derive(Debug, Clone, Copy)]
pub enum Servers {
    /// No `mcpServers` key.
    Missing,
    /// An object, with or without a `reckon` entry.
    Object { has_reckon: bool },
    /// Anything but an object.
    NotObject,
}

/// Whether the `reckon` entry may be merged into the configuration shown
/// as `path`: its root must be an object, `mcpServers` an object (or
/// absent, then created: `Ok(true)`), and an existing `reckon` entry is
/// only replaced with `force`.
pub fn plan_merge(path: &str, root_is_object: bool, servers: Servers, force: bool) -> (res: Result<
    bool,
    Error,
>)
    ensures
        match (root_is_object, servers) {
            (false, _) => res matches Err(Error::Other(m)) && m@ == "existing config at "@ + path@
                + " is not a JSON object"@,
            (true, Servers::NotObject) => res matches Err(Error::Other(m)) && m@
                == "existing `mcpServers` in "@ + path@ + " is not an object"@,
            (true, Servers::Missing) => res == Ok::<bool, Error>(true),
            (true, Servers::Object { has_reckon }) => if has_reckon && !force {
                res matches Err(Error::Other(m)) && m@
                    == "`reckon` server already configured; pass --force to overwrite"@
            } else {
                res == Ok::<bool, Error>(false)
            },
        },
{
    if !root_is_object {
        let mut m = "existing config at ".to_owned();
        push_str(&mut m, path);
        push_str(&mut m, " is not a JSON object");
        return Err(Error::Other(m));
    }
    match servers {
        Servers::NotObject => {
            let mut m = "existing `mcpServers` in ".to_owned();
            push_str(&mut m, path);
            push_str(&mut m, " is not an object");
            Err(Error::Other(m))
        },
        Servers::Missing => Ok(true),
        Servers::Object { has_reckon } => {
            if has_reckon && !force {
                Err(
                    Error::Other(
                        "`reckon` server already configured; pass --force to overwrite".to_owned(),
                    ),
                )
            } else {
                Ok(false)
            }
        },
    }
}

/// The two lines reporting the configuration written at `target`.
pub fn wrote_lines(theme: Theme, target: &str) -> (res: (String, String))
    ensures
        res.0@ == "  "@ + painted_text(style_of(false, false, false, Some(71u8)), theme, "\u{2713}"@)
            + " "@ + painted_text(style_of(false, false, false, None), theme, "wrote"@) + "  "@
            + painted_text(style_of(true, false, false, None), theme, target@),
        res.1@ == "     "@ + painted_text(
            style_of(false, true, false, None),
            theme,
            "next: restart your MCP host, then `reckon doctor`"@,
        ),
{
    let mut a = "  ".to_owned();
    push_str(&mut a, Style::green().paint(theme, "\u{2713}").render().as_str());
    push_str(&mut a, " ");
    push_str(&mut a, Style::default().paint(theme, "wrote").render().as_str());
    push_str(&mut a, "  ");
    push_str(&mut a, Style::bold().paint(theme, target).render().as_str());
    let mut b = "     ".to_owned();
    push_str(
        &mut b,
        Style::dim().paint(theme, "next: restart your MCP host, then `reckon doctor`").render().as_str(),
    );
    (a, b)
}

} // verus!
