//! `reckon init`: what scaffolding a repository for Reckon decides: the
//! `.gitignore` entry for the sidecar, whether the post-commit hook may be
//! written, the templates written, and the lines reporting each step.

use vstd::prelude::*;
use crate::cli::style::{painted_text, style_of, Style, Theme};
use crate::cli::wordmark::{standalone, standalone_spec};
use crate::text::{
    chars_of, find_seq, find_str, lines, push_str, seq_eq, split_lines, string_of, trim, trim_seq, views,
};
use crate::Error;

verus! {

pub struct InitArgs {
    pub with_hooks: bool,
    pub no_color: bool,
    pub force: bool,
}

pub open spec fn paint(bold: bool, dim: bool, fg: Option<u8>, theme: Theme, s: Seq<char>) -> Seq<char> {
    painted_text(style_of(bold, dim, false, fg), theme, s)
}

/// The heading: wordmark and where the repository is.
pub fn heading(theme: Theme, root: &str) -> (res: String)
    ensures
        res@ == "  "@ + standalone_spec(theme) + " \u{b7} "@ + paint(
            false,
            false,
            None,
            theme,
            "initializing in "@ + root@,
        ),
{
    let mut t = "initializing in ".to_owned();
    push_str(&mut t, root);
    let mut s = "  ".to_owned();
    push_str(&mut s, standalone(theme).as_str());
    push_str(&mut s, " \u{b7} ");
    push_str(&mut s, Style::default().paint(theme, t.as_str()).render().as_str());
    s
}

/// The line reporting one step: dimmed with `verb_skip` when there was
/// nothing to do, else a check mark, `verb_done` and the bold label.
pub open spec fn step_spec(
    theme: Theme,
    skipped: bool,
    verb_done: Seq<char>,
    verb_skip: Seq<char>,
    label: Seq<char>,
) -> Seq<char> {
    if skipped {
        "  "@ + paint(false, true, None, theme, "\u{b7}"@) + " "@ + paint(false, true, None, theme, verb_skip)
            + "  "@ + paint(false, true, None, theme, label)
    } else {
        "  "@ + paint(false, false, Some(71u8), theme, "\u{2713}"@) + " "@ + paint(
            false,
            false,
            None,
            theme,
            verb_done,
        ) + "  "@ + paint(true, false, None, theme, label)
    }
}

pub fn step_line(theme: Theme, skipped: bool, verb_done: &str, verb_skip: &str, label: &str) -> (res:
    String)
    ensures
        res@ == step_spec(theme, skipped, verb_done@, verb_skip@, label@),
{
    let mut s = "  ".to_owned();
    if skipped {
        push_str(&mut s, Style::dim().paint(theme, "\u{b7}").render().as_str());
        push_str(&mut s, " ");
        push_str(&mut s, Style::dim().paint(theme, verb_skip).render().as_str());
        push_str(&mut s, "  ");
        push_str(&mut s, Style::dim().paint(theme, label).render().as_str());
    } else {
        push_str(&mut s, Style::green().paint(theme, "\u{2713}").render().as_str());
        push_str(&mut s, " ");
        push_str(&mut s, Style::default().paint(theme, verb_done).render().as_str());
        push_str(&mut s, "  ");
        push_str(&mut s, Style::bold().paint(theme, label).render().as_str());
    }
    assert(s@ =~= step_spec(theme, skipped, verb_done@, verb_skip@, label@));
    s
}

/// Whether a `.gitignore` line (trimmed) already ignores the sidecar.
pub open spec fn ignores_sidecar(line: Seq<char>) -> bool {
    let t = trim_seq(line);
    t == ".reckon/"@ || t == "/.reckon/"@ || t == "/.reckon"@ || t == "**/.reckon/"@
}

/// Whether a `.gitignore` already ignores the sidecar on one of its lines.
pub open spec fn already_ignored_spec(gitignore: Seq<char>) -> bool {
    exists|i: int| 0 <= i < lines(gitignore).len() && ignores_sidecar(#[trigger] lines(gitignore)[i])
}

fn is(s: &Vec<char>, lit: &str) -> (res: bool)
    ensures
        res == (s@ == lit@),
{
    seq_eq(s, &chars_of(lit))
}

pub fn already_ignored(gitignore: &str) -> (res: bool)
    ensures
        res == already_ignored_spec(gitignore@),
{
    let ls = split_lines(&chars_of(gitignore));
    let ghost lv = views(ls@);
    let mut i: usize = 0;
    while i < ls.len()
        invariant
            i <= ls@.len(),
            lv == views(ls@),
            lv == lines(gitignore@),
            forall|q: int| 0 <= q < i ==> !ignores_sidecar(#[trigger] lv[q]),
        decreases ls.len() - i,
    {
        let t = trim(&ls[i]);
        assert(lv[i as int] == ls@[i as int]@);
        if is(&t, ".reckon/") || is(&t, "/.reckon/") || is(&t, "/.reckon") || is(&t, "**/.reckon/") {
            assert(ignores_sidecar(lv[i as int]));
            return true;
        }
        i = i + 1;
    }
    false
}

/// The `.gitignore` with the sidecar entry appended (after a newline when
/// the file does not end with one).
pub open spec fn with_sidecar_entry(gitignore: Seq<char>) -> Seq<char> {
    (if gitignore.len() > 0 && gitignore.last() != '\n' {
        gitignore.push('\n')
    } else {
        gitignore
    }) + "# Reckon sidecar (caches, evidence store).\n"@ + ".reckon/\n"@
}

pub fn gitignore_with_entry(gitignore: &str) -> (res: String)
    ensures
        res@ == with_sidecar_entry(gitignore@),
{
    let v = chars_of(gitignore);
    let mut out = gitignore.to_owned();
    if v.len() > 0 && v[v.len() - 1] != '\n' {
        crate::text::push_char(&mut out, '\n');
    }
    push_str(&mut out, "# Reckon sidecar (caches, evidence store).\n");
    push_str(&mut out, ".reckon/\n");
    assert(out@ =~= with_sidecar_entry(gitignore@));
    out
}

/// Whether an existing post-commit hook already runs `reckon memoir`.
pub fn hook_wired(hook: &str) -> (res: bool)
    ensures
        res == (find_seq(hook@, "reckon memoir"@) is Some),
{
    find_str(&chars_of(hook), "reckon memoir").is_some()
}

/// Whether the post-commit hook at `hook_path` is to be written: an error
/// outside a git repository (no hooks directory) or when another hook
/// exists and `force` is not given; `false` when it is already wired.
pub fn plan_hook(
    hooks_dir_exists: bool,
    hook_exists: bool,
    already_wired: bool,
    force: bool,
    hook_path: &str,
) -> (res: Result<bool, Error>)
    ensures
        !hooks_dir_exists ==> (res matches Err(Error::Other(m)) && m@
            == "not a git repo (no .git/hooks directory)"@),
        hooks_dir_exists && already_wired ==> res == Ok::<bool, Error>(false),
        hooks_dir_exists && !already_wired && hook_exists && !force ==> (res matches Err(
            Error::Other(m),
        ) && m@ == hook_path@ + " already exists; pass --force to overwrite"@),
        hooks_dir_exists && !already_wired && !(hook_exists && !force) ==> res == Ok::<
            bool,
            Error,
        >(true),
{
    if !hooks_dir_exists {
        return Err(Error::Other("not a git repo (no .git/hooks directory)".to_owned()));
    }
    if already_wired {
        return Ok(false);
    }
    if hook_exists && !force {
        let mut m = hook_path.to_owned();
        push_str(&mut m, " already exists; pass --force to overwrite");
        return Err(Error::Other(m));
    }
    Ok(true)
}

/// The closing lines once the repository is ready.
pub fn ready_lines(theme: Theme) -> (res: Vec<String>)
    ensures
        res@.map_values(|s: String| s@) == seq![
            "  "@ + paint(false, false, Some(71u8), theme, "\u{2713}"@) + "  "@ + paint(true, false, None, theme, "ready"@),
            "     "@ + paint(false, true, None, theme, "next: `reckon memoir <module>` to generate the first MEMOIR.md"@),
            "     "@ + paint(false, true, None, theme, "or:   `reckon doctor` to verify the Bob wiring"@),
        ],
{
    let mut a = "  ".to_owned();
    push_str(&mut a, Style::green().paint(theme, "\u{2713}").render().as_str());
    push_str(&mut a, "  ");
    push_str(&mut a, Style::bold().paint(theme, "ready").render().as_str());
    let mut b = "     ".to_owned();
    push_str(
        &mut b,
        Style::dim().paint(theme, "next: `reckon memoir <module>` to generate the first MEMOIR.md").render().as_str(),
    );
    let mut c = "     ".to_owned();
    push_str(
        &mut c,
        Style::dim().paint(theme, "or:   `reckon doctor` to verify the Bob wiring").render().as_str(),
    );
    let mut v: Vec<String> = Vec::new();
    v.push(a);
    v.push(b);
    v.push(c);
    assert(v@.map_values(|s: String| s@) =~= seq![
        "  "@ + paint(false, false, Some(71u8), theme, "\u{2713}"@) + "  "@ + paint(true, false, None, theme, "ready"@),
        "     "@ + paint(false, true, None, theme, "next: `reckon memoir <module>` to generate the first MEMOIR.md"@),
        "     "@ + paint(false, true, None, theme, "or:   `reckon doctor` to verify the Bob wiring"@),
    ]);
    v
}

/// The postmortem template written to `postmortems/TEMPLATE.md`.
pub const POSTMORTEM_TEMPLATE: &'static str = "---\nid: IR-XXX\ndate: YYYY-MM-DD\ntitle: <one-line incident title>\nservices:\n  - <service-name>\ncode_refs:\n  - { file: \"path/to/file.ext\", lines: [START, END] }\nlinked_prs:\n  - \"#NNNN\"\nlinked_tests:\n  - \"path/to/tests/test_foo.py::test_regression_guard\"\n---\n\n# IR-XXX \u{2014} <title>\n\n## Summary\n\nWhat happened, in a paragraph. Be specific: which service, which window,\nhow many customers/requests affected, dollar impact if known.\n\n## Fix\n\nWhat changed in the code, with a pointer to the PR and the test that\nholds the regression. Reckon uses this section to derive the tripwire\nsummary that surfaces in Bob's Review-mode warning card.\n\n## Why this still matters\n\nWhy the future engineer reading this should not undo it. The trap that\nre-opens this failure mode, stated plainly.\n";

/// The post-commit hook: regenerates the memoir of each module a commit
/// touched.
pub const POST_COMMIT_HOOK: &'static str = "#!/usr/bin/env sh\n# Reckon auto-update hook.\n#\n# After every commit, regenerate the MEMOIR.md of each module that this\n# commit touched. The new memoirs land in the working tree as uncommitted\n# changes so you can either amend them in or commit them as a follow-up.\n#\n# Disable with: `git config reckon.autoUpdateMemoir false`\n# Remove entirely by deleting `.git/hooks/post-commit`.\n\nif [ \"$(git config --bool reckon.autoUpdateMemoir 2>/dev/null)\" = \"false\" ]; then\n    exit 0\nfi\nif ! command -v reckon >/dev/null 2>&1; then\n    exit 0\nfi\n\ngit diff-tree --no-commit-id --name-only -r HEAD | awk -F/ '{ if (NF >= 2) { print $1 } }' | sort -u | while IFS= read -r module; do\n    if [ -d \"$module\" ]; then\n        reckon memoir \"$module\" --auto --no-color || true\n    fi\ndone\n";

} // verus!
