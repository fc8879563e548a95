//! The forge and postmortem fixtures of the demo repository: the two
//! postmortems, the pull requests (whose merge commits are the seeded
//! head) and the issues.

use vstd::prelude::*;
use crate::text::push_str;

verus! {

/// The postmortem of IR-117.
pub const IR117_POSTMORTEM: &'static str = r##"---
id: IR-117
date: 2024-09-04
title: Duplicate charges during a network partition
services:
  - payments
code_refs:
  - { file: "payments/retry.py", lines: [27, 28] }
linked_prs:
  - "#2847"
linked_tests:
  - "tests/payments/test_retry.py::test_idempotency_key_is_deterministic_per_attempt"
---

# IR-117 — Duplicate charges during a network partition

## Summary

A refactor replaced the persisted idempotency key in `payments/retry.py`
with a request-scoped UUID generated inside the retry loop. Under a 90s
partition between us and Stripe, the same charge retried with two
different keys and Stripe accepted both as distinct PaymentIntents.
312 customers were double-charged. ≈$48K refunded manually.

## Fix

Persist the idempotency key, keyed by `(order_id, attempt_index)`,
**before** any network call. The regression is held by
`tests/payments/test_retry.py::test_idempotency_key_is_deterministic_per_attempt`.

## Why this still matters

Anything generated inside the retry loop can diverge across attempts; the
key has to be derived from inputs that survive a retry, and it has to be
written down before the network call so a process crash mid-charge still
produces the same key on the next worker.
"##;

/// The postmortem of IR-091.
pub const IR091_POSTMORTEM: &'static str = r##"---
id: IR-091
date: 2024-06-22
title: Retry storm during Stripe degradation
services:
  - payments
code_refs:
  - { file: "payments/retry.py", lines: [11, 11] }
linked_prs:
  - "#2611"
linked_tests:
  - "tests/payments/test_retry.py::test_retry_cap_holds_under_partition"
---

# IR-091 — Retry storm during Stripe degradation

## Summary

The original retry loop used equal jitter and a 4-attempt cap. When
Stripe latency rose to ~8s p99, our outbound load multiplied ~30× and
Stripe rate-limited us for 14 minutes.

## Fix

Reduce cap to 3 attempts. Switch jitter from equal to full so retry
windows decorrelate. The regression is held by
`tests/payments/test_retry.py::test_retry_cap_holds_under_partition`.
"##;

/// The pull requests, up to the first merge commit.
pub const PRS_HEAD: &'static str = r##"[
  {
    "number": 2611,
    "title": "Retry: cap at 3 + full jitter (IR-091)",
    "state": "merged",
    "author": "kw",
    "merged_at": "2024-06-23T18:11:00Z",
    "merge_commit": ""##;

/// The pull requests, between the two merge commits.
pub const PRS_MIDDLE: &'static str = r##"",
    "body": "Closes IR-091. Reduces MAX_ATTEMPTS to 3 and replaces equal jitter with full jitter so retry windows decorrelate.",
    "linked_incidents": ["IR-091"],
    "linked_tests": ["tests/payments/test_retry.py::test_retry_cap_holds_under_partition"],
    "files": ["payments/retry.py", "tests/payments/test_retry.py"]
  },
  {
    "number": 2847,
    "title": "Retry: persist idempotency key before network call (IR-117)",
    "state": "merged",
    "author": "kw",
    "merged_at": "2024-09-05T09:30:00Z",
    "merge_commit": ""##;

/// The pull requests, after the second merge commit.
pub const PRS_TAIL: &'static str = r##"",
    "body": "Closes IR-117. Persists the per-attempt idempotency key derived from (order_id, attempt) before any network call.",
    "linked_incidents": ["IR-117"],
    "linked_tests": ["tests/payments/test_retry.py::test_idempotency_key_is_deterministic_per_attempt"],
    "files": ["payments/retry.py", "tests/payments/test_retry.py"]
  },
  {
    "number": 2841,
    "title": "Switch retry loop to the `tenacity` library",
    "state": "closed",
    "author": "kw",
    "closed_at": "2024-10-12T14:00:00Z",
    "body": "Tenacity re-raises on permanent errors before our classifier runs, which would re-open the IR-117 failure mode. Closing.",
    "linked_incidents": ["IR-117"],
    "files": ["payments/retry.py"]
  },
  {
    "number": 3104,
    "title": "Make MAX_ATTEMPTS configurable per tenant",
    "state": "closed",
    "author": "kw",
    "closed_at": "2025-01-08T11:22:00Z",
    "body": "Two tenants would have raised it to 6+ within a week; ops review surfaced thundering-herd risk identical to IR-091.",
    "linked_incidents": ["IR-091"],
    "files": ["payments/retry.py"]
  },
  {
    "number": 3318,
    "title": "Replace persisted key with Redis-backed UUID lease",
    "state": "closed",
    "author": "kw",
    "closed_at": "2025-03-22T16:40:00Z",
    "body": "Adds a runtime dependency to a code path that must succeed when Redis is down. Closed in favor of keeping the key derivation pure.",
    "linked_incidents": ["IR-117"],
    "files": ["payments/retry.py"]
  }
]
"##;

/// The issues.
pub const ISSUES: &'static str = r##"[
  {
    "id": "IR-117",
    "title": "Duplicate charges during a network partition",
    "state": "closed",
    "body": "See postmortems/IR-117.md.",
    "labels": ["incident", "severity-high"],
    "closed_at": "2024-09-05T09:30:00Z"
  },
  {
    "id": "IR-091",
    "title": "Retry storm during Stripe degradation",
    "state": "closed",
    "body": "See postmortems/IR-091.md.",
    "labels": ["incident", "severity-high"],
    "closed_at": "2024-06-23T18:11:00Z"
  }
]
"##;

/// The pull-request fixture with `head` (the short id of the seeded head
/// commit) as the merge commit of the two merged pull requests.
pub open spec fn prs_json(head: Seq<char>) -> Seq<char> {
    PRS_HEAD@ + head + PRS_MIDDLE@ + head + PRS_TAIL@
}

/// The fixture files, by path under the repository root.
pub open spec fn fixtures_spec(head: Seq<char>) -> Seq<(Seq<char>, Seq<char>)> {
    seq![
        ("postmortems/IR-117.md"@, IR117_POSTMORTEM@),
        ("postmortems/IR-091.md"@, IR091_POSTMORTEM@),
        (".fixtures/github/prs.json"@, prs_json(head)),
        (".fixtures/github/issues.json"@, ISSUES@),
    ]
}

pub fn fixtures(head_short: &str) -> (res: Vec<(String, String)>)
    ensures
        res@.map_values(|f: (String, String)| (f.0@, f.1@)) == fixtures_spec(head_short@),
{
    let mut prs = PRS_HEAD.to_owned();
    push_str(&mut prs, head_short);
    push_str(&mut prs, PRS_MIDDLE);
    push_str(&mut prs, head_short);
    push_str(&mut prs, PRS_TAIL);
    let mut v: Vec<(String, String)> = Vec::new();
    v.push(("postmortems/IR-117.md".to_owned(), IR117_POSTMORTEM.to_owned()));
    v.push(("postmortems/IR-091.md".to_owned(), IR091_POSTMORTEM.to_owned()));
    v.push((".fixtures/github/prs.json".to_owned(), prs));
    v.push((".fixtures/github/issues.json".to_owned(), ISSUES.to_owned()));
    assert(v@.map_values(|f: (String, String)| (f.0@, f.1@)) =~= fixtures_spec(head_short@));
    v
}

} // verus!
