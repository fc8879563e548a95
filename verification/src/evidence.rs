//! Records of the audit store: the sources a request read and the steps
//! of its trace, the schema of the store and how a line range is
//! recorded. The store itself (SQLite) is kept by the binaries.

use vstd::prelude::*;
use crate::number::{decimal, push_usize};
use crate::text::push_str;

verus! {

#[derive(Debug, Clone)]
pub struct Source {
    pub kind: String,
    /// What the source is (a commit id, a pull request, a file).
    pub reference: String,
    pub title: String,
    pub snippet: String,
}

#[derive(Debug, Clone)]
pub struct TraceStep {
    pub step: i64,
    pub tool: String,
    pub input: String,
    pub output: String,
    pub latency_ms: i64,
}

/// The tables of the store: requests, their sources and their traces.
pub const SCHEMA: &'static str = r#"
CREATE TABLE IF NOT EXISTS requests (
    id          INTEGER PRIMARY KEY AUTOINCREMENT,
    kind        TEXT NOT NULL,
    repo        TEXT NOT NULL,
    path        TEXT,
    range       TEXT,
    created_at  TEXT NOT NULL
);

CREATE TABLE IF NOT EXISTS sources (
    id          INTEGER PRIMARY KEY AUTOINCREMENT,
    request_id  INTEGER NOT NULL REFERENCES requests(id) ON DELETE CASCADE,
    kind        TEXT NOT NULL,
    ref         TEXT NOT NULL,
    title       TEXT NOT NULL,
    snippet     TEXT NOT NULL
);

CREATE TABLE IF NOT EXISTS traces (
    id          INTEGER PRIMARY KEY AUTOINCREMENT,
    request_id  INTEGER NOT NULL REFERENCES requests(id) ON DELETE CASCADE,
    step        INTEGER NOT NULL,
    tool        TEXT NOT NULL,
    input       TEXT NOT NULL,
    output      TEXT NOT NULL,
    latency_ms  INTEGER NOT NULL
);

CREATE INDEX IF NOT EXISTS idx_sources_request_id ON sources(request_id);
CREATE INDEX IF NOT EXISTS idx_traces_request_id ON traces(request_id);
"#;

/// How a request's line range is recorded: `start-end`.
pub fn range_label(start: usize, end: usize) -> (res: String)
    ensures
        res@ == decimal(start as nat) + "-"@ + decimal(end as nat),
{
    let mut s = String::new();
    push_usize(&mut s, start);
    push_str(&mut s, "-");
    push_usize(&mut s, end);
    s
}

} // verus!
