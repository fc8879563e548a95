//! Per-repository configuration, computed from the repository root.
//!
//! Paths are `/`-separated strings; joining follows std `PathBuf::push` on
//! Unix: an absolute component replaces the base, otherwise a separator
//! is added unless the base is empty or already ends in one.

use vstd::prelude::*;
use crate::text::{push_char, push_str};
use crate::{Error, Result};

verus! {

/// Per-repo configuration.
#[derive(Debug, Clone)]
pub struct Config {
    pub repo_root: String,
    pub sidecar: String,
    /// File globs that count as module sources.
    pub module_globs: Vec<String>,
    /// Path to the postmortems directory, relative to the repo root.
    pub postmortems_dir: String,
    /// Path to the GitHub fixture directory, relative to the repo root.
    pub github_fixture_dir: String,
    /// Embedding model name.
    pub embedding_model: String,
}

/// `base` joined with `p`.
pub open spec fn join_path(base: Seq<char>, p: Seq<char>) -> Seq<char> {
    if p.len() > 0 && p[0] == '/' {
        p
    } else if base.len() == 0 || base.last() == '/' {
        base + p
    } else {
        base.push('/') + p
    }
}

/// `base` joined with `p`.
pub fn join(base: &str, p: &str) -> (res: String)
    ensures
        res@ == join_path(base@, p@),
{
    let pv = crate::text::chars_of(p);
    let bv = crate::text::chars_of(base);
    if pv.len() > 0 && pv[0] == '/' {
        return crate::text::string_of(&pv);
    }
    let mut out = crate::text::string_of(&bv);
    if !(bv.len() == 0 || bv[bv.len() - 1] == '/') {
        push_char(&mut out, '/');
    }
    push_str(&mut out, p);
    out
}

/// Rust's `Debug` rendering of a string (quoted and escaped).
pub uninterp spec fn debug_quoted(s: Seq<char>) -> Seq<char>;

/// Rust's `Debug` rendering of the path `s` (quoted and escaped as std
/// `Path` does).
pub uninterp spec fn debug_quoted_path(s: Seq<char>) -> Seq<char>;

/// Trusted: std's `{:?}` formatting of `Path::new(s)`, which depends on
/// `s` alone; what it holds (quotes and escapes) is not stated here.
#[verifier::external_body]
pub(crate) fn debug_path(s: &str) -> (res: String)
    ensures
        res@ == debug_quoted_path(s@),
{
    format!("{:?}", std::path::Path::new(s))
}

/// Trusted: std's `{:?}` formatting of a string, which depends on the
/// string alone; what it holds (quotes and escapes) is not stated here.
#[verifier::external_body]
pub(crate) fn debug_string(s: &str) -> (res: String)
    ensures
        res@ == debug_quoted(s@),
{
    format!("{:?}", s)
}

pub open spec fn default_module_globs_spec() -> Seq<Seq<char>> {
    seq!["**/*.py"@, "**/*.rs"@, "**/*.ts"@, "**/*.tsx"@, "**/*.js"@, "**/*.go"@]
}

fn lit(s: &str) -> (res: String)
    ensures
        res@ == s@,
{
    let mut r = String::new();
    push_str(&mut r, s);
    assert(r@ =~= s@);
    r
}

fn default_module_globs() -> (res: Vec<String>)
    ensures
        res@.map_values(|g: String| g@) == default_module_globs_spec(),
{
    let res = vec![
        lit("**/*.py"),
        lit("**/*.rs"),
        lit("**/*.ts"),
        lit("**/*.tsx"),
        lit("**/*.js"),
        lit("**/*.go"),
    ];
    assert(res@.map_values(|g: String| g@) =~= default_module_globs_spec());
    res
}

impl Config {
    /// The configuration of the repository rooted at `repo_root`;
    /// `is_dir` says whether that path is a directory on disk, and the
    /// configuration is refused when it is not.
    pub fn for_repo(repo_root: &str, is_dir: bool) -> (res: Result<Self>)
        ensures
            is_dir <==> res is Ok,
            match res {
                Ok(c) => {
                    &&& c.repo_root@ == repo_root@
                    &&& c.sidecar@ == join_path(repo_root@, ".reckon"@)
                    &&& c.module_globs@.map_values(|g: String| g@) == default_module_globs_spec()
                    &&& c.postmortems_dir@ == "postmortems"@
                    &&& c.github_fixture_dir@ == ".fixtures/github"@
                    &&& c.embedding_model@ == "AllMiniLML6V2"@
                },
                Err(e) => e matches Error::Config(m) && m@ == "repo_root "@ + debug_quoted_path(
                    repo_root@,
                ) + " is not a directory"@,
            },
    {
        if !is_dir {
            let mut m = lit("repo_root ");
            let q = debug_path(repo_root);
            push_str(&mut m, q.as_str());
            push_str(&mut m, " is not a directory");
            return Err(Error::Config(m));
        }
        Ok(Config {
            repo_root: lit(repo_root),
            sidecar: join(repo_root, ".reckon"),
            module_globs: default_module_globs(),
            postmortems_dir: lit("postmortems"),
            github_fixture_dir: lit(".fixtures/github"),
            embedding_model: lit("AllMiniLML6V2"),
        })
    }

    pub fn sidecar_dir(&self) -> (res: &String)
        ensures
            res@ == self.sidecar@,
    {
        &self.sidecar
    }

    pub fn sqlite_path(&self) -> (res: String)
        ensures
            res@ == join_path(self.sidecar@, "evidence.db"@),
    {
        join(self.sidecar.as_str(), "evidence.db")
    }

    pub fn chroma_dir(&self) -> (res: String)
        ensures
            res@ == join_path(self.sidecar@, "chroma"@),
    {
        join(self.sidecar.as_str(), "chroma")
    }

    pub fn postmortems_path(&self) -> (res: String)
        ensures
            res@ == join_path(self.repo_root@, self.postmortems_dir@),
    {
        join(self.repo_root.as_str(), self.postmortems_dir.as_str())
    }

    pub fn github_fixture_path(&self) -> (res: String)
        ensures
            res@ == join_path(self.repo_root@, self.github_fixture_dir@),
    {
        join(self.repo_root.as_str(), self.github_fixture_dir.as_str())
    }
}

} // verus!
