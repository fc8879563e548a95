//! Artifact Indexer: pull requests and issues from the forge fixtures,
//! the links between them and the commits of a module, and the module
//! that contains a path.

use std::collections::HashMap;
use vstd::prelude::*;
use crate::path::{parent, parent_spec, strip_prefix, strip_prefix_spec};
use crate::config::join_path;
use crate::text::{chars_of, has_prefix, push_str, seq_eq, slice_of, take_chars, starts_with_str};
use crate::git::CommitInfo;
use crate::ordered::{
    add_number, add_numbers, insert_all_strings, lemma_sorted_numbers, set_numbers,
    lemma_sorted_strings, num_lt, lex, sorted_by, sorted_numbers, sorted_strings, string_views,
};
use crate::refs::{incident_ids, incident_ids_spec, pr_refs, pr_refs_spec};
use crate::{Error, Result};

verus! {

#[derive(Debug, Clone, Default)]
pub struct PullRequest {
    pub number: u64,
    pub title: String,
    /// `"merged"`, `"closed"` or `"open"`.
    pub state: String,
    pub author: String,
    pub merged_at: Option<String>,
    pub closed_at: Option<String>,
    pub merge_commit: Option<String>,
    pub body: String,
    pub linked_incidents: Vec<String>,
    pub linked_tests: Vec<String>,
    pub files: Vec<String>,
}

#[derive(Debug, Clone, Default)]
pub struct Issue {
    /// e.g. `IR-117`.
    pub id: String,
    pub number: Option<u64>,
    pub title: String,
    pub state: String,
    pub body: String,
    pub labels: Vec<String>,
    pub closed_at: Option<String>,
}

/// Aggregated artifacts of one module.
#[derive(Debug, Clone, Default)]
pub struct ArtifactBundle {
    pub module_dir: String,
    pub commits: Vec<crate::git::CommitInfo>,
    pub prs: Vec<PullRequest>,
    pub issues: Vec<Issue>,
}

/// The optional text of an `Option<String>`.
pub open spec fn opt_view(o: Option<String>) -> Option<Seq<char>> {
    match o {
        Some(s) => Some(s@),
        None => None,
    }
}

/// A pull request as plain values.
#[verifier::ext_equal]
pub struct PullRequestView {
    pub number: u64,
    pub title: Seq<char>,
    pub state: Seq<char>,
    pub author: Seq<char>,
    pub merged_at: Option<Seq<char>>,
    pub closed_at: Option<Seq<char>>,
    pub merge_commit: Option<Seq<char>>,
    pub body: Seq<char>,
    pub linked_incidents: Seq<Seq<char>>,
    pub linked_tests: Seq<Seq<char>>,
    pub files: Seq<Seq<char>>,
}

impl View for PullRequest {
    type V = PullRequestView;

    open spec fn view(&self) -> PullRequestView {
        PullRequestView {
            number: self.number,
            title: self.title@,
            state: self.state@,
            author: self.author@,
            merged_at: opt_view(self.merged_at),
            closed_at: opt_view(self.closed_at),
            merge_commit: opt_view(self.merge_commit),
            body: self.body@,
            linked_incidents: string_views(self.linked_incidents@),
            linked_tests: string_views(self.linked_tests@),
            files: string_views(self.files@),
        }
    }
}

/// An issue as plain values.
#[verifier::ext_equal]
pub struct IssueView {
    pub id: Seq<char>,
    pub number: Option<u64>,
    pub title: Seq<char>,
    pub state: Seq<char>,
    pub body: Seq<char>,
    pub labels: Seq<Seq<char>>,
    pub closed_at: Option<Seq<char>>,
}

impl View for Issue {
    type V = IssueView;

    open spec fn view(&self) -> IssueView {
        IssueView {
            id: self.id@,
            number: self.number,
            title: self.title@,
            state: self.state@,
            body: self.body@,
            labels: string_views(self.labels@),
            closed_at: opt_view(self.closed_at),
        }
    }
}

/// Views of a sequence of pull requests.
pub open spec fn pr_views(s: Seq<PullRequest>) -> Seq<PullRequestView> {
    s.map_values(|p: PullRequest| p@)
}

/// Views of a sequence of issues.
pub open spec fn issue_views(s: Seq<Issue>) -> Seq<IssueView> {
    s.map_values(|i: Issue| i@)
}

/// The forge fixtures: pull requests and issues, in file order.
#[derive(Debug, Clone, Default)]
pub struct ForgeBundle {
    pub prs: Vec<PullRequest>,
    pub issues: Vec<Issue>,
}

/// Whether a recorded merge commit `c` and a (40-character-cut) commit id
/// `short` name the same commit: one is a prefix of the other.
pub open spec fn commit_matches(c: Seq<char>, short: Seq<char>) -> bool {
    short.is_prefix_of(c) || c.is_prefix_of(short)
}

/// The merge commit of the first of the first `n` pull requests whose
/// merge commit matches `short`.
pub open spec fn first_matching_commit(prs: Seq<PullRequest>, short: Seq<char>, n: int) -> Option<
    Seq<char>,
>
    decreases n,
{
    if n <= 0 {
        None
    } else {
        match first_matching_commit(prs, short, n - 1) {
            Some(c) => Some(c),
            None => match prs[n - 1].merge_commit {
                Some(c) => if commit_matches(c@, short) {
                    Some(c@)
                } else {
                    None
                },
                None => None,
            },
        }
    }
}

/// Index of the last of the first `n` pull requests merged as commit `c`.
pub open spec fn last_with_commit(prs: Seq<PullRequest>, c: Seq<char>, n: int) -> Option<int>
    decreases n,
{
    if n <= 0 {
        None
    } else if prs[n - 1].merge_commit matches Some(m) && m@ == c {
        Some(n - 1)
    } else {
        last_with_commit(prs, c, n - 1)
    }
}

/// Index of the last of the first `n` pull requests numbered `num`.
pub open spec fn last_with_number(prs: Seq<PullRequest>, num: u64, n: int) -> Option<int>
    decreases n,
{
    if n <= 0 {
        None
    } else if prs[n - 1].number == num {
        Some(n - 1)
    } else {
        last_with_number(prs, num, n - 1)
    }
}

/// Index of the last of the first `n` issues with id `id`.
pub open spec fn last_issue_with_id(issues: Seq<Issue>, id: Seq<char>, n: int) -> Option<int>
    decreases n,
{
    if n <= 0 {
        None
    } else if issues[n - 1].id@ == id {
        Some(n - 1)
    } else {
        last_issue_with_id(issues, id, n - 1)
    }
}

/// The pull request that merged commit `sha`: the first recorded merge
/// commit (in file order) matching the first 40 characters of `sha`; a
/// merge commit recorded twice belongs to the later pull request, and a
/// number recorded twice to the later one.
pub open spec fn pr_for_commit_spec(prs: Seq<PullRequest>, sha: Seq<char>) -> Option<int> {
    match first_matching_commit(prs, take_chars(sha, 40), prs.len() as int) {
        None => None,
        Some(c) => match last_with_commit(prs, c, prs.len() as int) {
            Some(j) => last_with_number(prs, prs[j].number, prs.len() as int),
            None => None,
        },
    }
}

proof fn lemma_first_matching_has_pr(prs: Seq<PullRequest>, short: Seq<char>, n: int)
    requires
        0 <= n <= prs.len(),
    ensures
        first_matching_commit(prs, short, n) matches Some(c) ==> last_with_commit(
            prs,
            c,
            prs.len() as int,
        ) is Some,
    decreases n,
{
    if n > 0 {
        lemma_first_matching_has_pr(prs, short, n - 1);
        if first_matching_commit(prs, short, n - 1) is None {
            if let Some(c) = prs[n - 1].merge_commit {
                lemma_last_commit_exists(prs, c@, n - 1, prs.len() as int);
            }
        }
    }
}

proof fn lemma_last_commit_exists(prs: Seq<PullRequest>, c: Seq<char>, i: int, n: int)
    requires
        0 <= i < n <= prs.len(),
        prs[i].merge_commit matches Some(m) && m@ == c,
    ensures
        last_with_commit(prs, c, n) matches Some(j) && i <= j < n,
    decreases n,
{
    if n - 1 > i && !(prs[n - 1].merge_commit matches Some(m) && m@ == c) {
        lemma_last_commit_exists(prs, c, i, n - 1);
    }
}

proof fn lemma_last_number_exists(prs: Seq<PullRequest>, num: u64, i: int, n: int)
    requires
        0 <= i < n <= prs.len(),
        prs[i].number == num,
    ensures
        last_with_number(prs, num, n) matches Some(j) && i <= j < n,
    decreases n,
{
    if n - 1 > i && prs[n - 1].number != num {
        lemma_last_number_exists(prs, num, i, n - 1);
    }
}

proof fn lemma_last_commit_bounds(prs: Seq<PullRequest>, c: Seq<char>, n: int)
    requires
        0 <= n <= prs.len(),
    ensures
        last_with_commit(prs, c, n) matches Some(j) ==> 0 <= j < n && (prs[j].merge_commit matches Some(
            m,
        ) && m@ == c),
    decreases n,
{
    if n > 0 {
        lemma_last_commit_bounds(prs, c, n - 1);
    }
}

impl ForgeBundle {
    pub fn prs(&self) -> (res: &[PullRequest])
        ensures
            res@ == self.prs@,
    {
        self.prs.as_slice()
    }

    pub fn issues(&self) -> (res: &[Issue])
        ensures
            res@ == self.issues@,
    {
        self.issues.as_slice()
    }

    /// Index of the last pull request numbered `num`.
    pub fn pr_index_by_number(&self, num: u64) -> (res: Option<usize>)
        ensures
            match res {
                Some(i) => last_with_number(self.prs@, num, self.prs@.len() as int) == Some(
                    i as int,
                ) && i < self.prs@.len(),
                None => last_with_number(self.prs@, num, self.prs@.len() as int) is None,
            },
    {
        let mut i = self.prs.len();
        while i > 0
            invariant
                i <= self.prs@.len(),
                last_with_number(self.prs@, num, self.prs@.len() as int) == last_with_number(
                    self.prs@,
                    num,
                    i as int,
                ),
            decreases i,
        {
            i = i - 1;
            if self.prs[i].number == num {
                return Some(i);
            }
        }
        None
    }

    /// Index of the last issue with id `id`.
    pub fn issue_index(&self, id: &str) -> (res: Option<usize>)
        ensures
            match res {
                Some(i) => last_issue_with_id(self.issues@, id@, self.issues@.len() as int) == Some(
                    i as int,
                ) && i < self.issues@.len(),
                None => last_issue_with_id(self.issues@, id@, self.issues@.len() as int) is None,
            },
    {
        let want = chars_of(id);
        let mut i = self.issues.len();
        while i > 0
            invariant
                i <= self.issues@.len(),
                want@ == id@,
                last_issue_with_id(self.issues@, id@, self.issues@.len() as int)
                    == last_issue_with_id(self.issues@, id@, i as int),
            decreases i,
        {
            i = i - 1;
            if seq_eq(&chars_of(self.issues[i].id.as_str()), &want) {
                return Some(i);
            }
        }
        None
    }

    /// The issue with id `id` (the last one, if recorded twice).
    pub fn issue(&self, id: &str) -> (res: Option<&Issue>)
        ensures
            match last_issue_with_id(self.issues@, id@, self.issues@.len() as int) {
                Some(i) => res == Some(&self.issues@[i]),
                None => res is None,
            },
    {
        match self.issue_index(id) {
            Some(i) => Some(&self.issues[i]),
            None => None,
        }
    }

    /// Index of the pull request that merged commit `sha`.
    pub fn pr_index_for_commit(&self, sha: &str) -> (res: Option<usize>)
        ensures
            match res {
                Some(i) => pr_for_commit_spec(self.prs@, sha@) == Some(i as int) && i
                    < self.prs@.len(),
                None => pr_for_commit_spec(self.prs@, sha@) is None,
            },
    {
        let sv = chars_of(sha);
        let short = if sv.len() <= 40 {
            slice_of(&sv, 0, sv.len())
        } else {
            slice_of(&sv, 0, 40)
        };
        assert(short@ == take_chars(sha@, 40));
        let ghost prs = self.prs@;
        let mut i: usize = 0;
        let mut found: Option<Vec<char>> = None;
        while i < self.prs.len() && found.is_none()
            invariant
                i <= prs.len(),
                prs == self.prs@,
                short@ == take_chars(sha@, 40),
                match found {
                    Some(c) => first_matching_commit(prs, short@, i as int) == Some(c@),
                    None => first_matching_commit(prs, short@, i as int) is None,
                },
            decreases prs.len() - i,
        {
            if let Some(c) = &self.prs[i].merge_commit {
                let cv = chars_of(c.as_str());
                if has_prefix(&cv, &short) || has_prefix(&short, &cv) {
                    found = Some(cv);
                }
            }
            i = i + 1;
        }
        let c = match found {
            Some(c) => c,
            None => return None,
        };
        proof {
            lemma_first_match_stable(prs, short@, i as int, prs.len() as int);
            lemma_first_matching_has_pr(prs, short@, prs.len() as int);
            lemma_last_commit_bounds(prs, c@, prs.len() as int);
        }
        let mut j = self.prs.len();
        let mut at: usize = 0;
        let mut got = false;
        while j > 0 && !got
            invariant
                j <= prs.len(),
                prs == self.prs@,
                !got ==> last_with_commit(prs, c@, prs.len() as int) == last_with_commit(
                    prs,
                    c@,
                    j as int,
                ),
                got ==> last_with_commit(prs, c@, prs.len() as int) == Some(at as int) && at
                    < prs.len(),
            decreases j,
        {
            j = j - 1;
            if let Some(m) = &self.prs[j].merge_commit {
                if seq_eq(&chars_of(m.as_str()), &c) {
                    at = j;
                    got = true;
                }
            }
        }
        if !got {
            return None;
        }
        let num = self.prs[at].number;
        proof {
            lemma_last_number_exists(prs, num, at as int, prs.len() as int);
        }
        self.pr_index_by_number(num)
    }

    /// The pull request that merged commit `sha`.
    pub fn pr_for_commit(&self, sha: &str) -> (res: Option<&PullRequest>)
        ensures
            match pr_for_commit_spec(self.prs@, sha@) {
                Some(i) => res == Some(&self.prs@[i]),
                None => res is None,
            },
    {
        match self.pr_index_for_commit(sha) {
            Some(i) => Some(&self.prs[i]),
            None => None,
        }
    }
}

proof fn lemma_last_number_bounds(prs: Seq<PullRequest>, num: u64, n: int)
    requires
        0 <= n <= prs.len(),
    ensures
        last_with_number(prs, num, n) matches Some(j) ==> 0 <= j < n && prs[j].number == num,
    decreases n,
{
    if n > 0 {
        lemma_last_number_bounds(prs, num, n - 1);
    }
}

proof fn lemma_first_match_stable(prs: Seq<PullRequest>, short: Seq<char>, i: int, n: int)
    requires
        0 <= i <= n,
        first_matching_commit(prs, short, i) is Some,
    ensures
        first_matching_commit(prs, short, n) == first_matching_commit(prs, short, i),
    decreases n - i,
{
    if i < n {
        lemma_first_match_stable(prs, short, i, n - 1);
    }
}

/// The commits of the first `n` per-file logs, one log after another.
pub open spec fn concat_logs(logs: Seq<Vec<CommitInfo>>, n: int) -> Seq<CommitInfo>
    decreases n,
{
    if n <= 0 {
        Seq::empty()
    } else {
        concat_logs(logs, n - 1) + logs[n - 1]@
    }
}

/// Whether some commit of `s` has id `sha`.
pub open spec fn has_sha(s: Seq<CommitInfo>, sha: Seq<char>) -> bool {
    exists|k: int| 0 <= k < s.len() && (#[trigger] s[k]).sha@ == sha
}

/// `s` without the commits whose id occurred earlier in it.
pub open spec fn first_by_sha(s: Seq<CommitInfo>) -> Seq<CommitInfo>
    decreases s.len(),
{
    if s.len() == 0 {
        Seq::empty()
    } else {
        let d = first_by_sha(s.drop_last());
        if has_sha(d, s.last().sha@) {
            d
        } else {
            d.push(s.last())
        }
    }
}

/// `s` (newest first) with `c` placed after every commit not older than it.
pub open spec fn insert_newest_first(s: Seq<CommitInfo>, c: CommitInfo) -> Seq<CommitInfo>
    decreases s.len(),
{
    if s.len() == 0 {
        seq![c]
    } else if s.last().timestamp < c.timestamp {
        insert_newest_first(s.drop_last(), c).push(s.last())
    } else {
        s.push(c)
    }
}

/// The first `n` commits of `s`, newest first; commits of the same time
/// keep their order (a stable sort by descending timestamp).
pub open spec fn newest_first(s: Seq<CommitInfo>, n: int) -> Seq<CommitInfo>
    decreases n,
{
    if n <= 0 {
        Seq::empty()
    } else {
        insert_newest_first(newest_first(s, n - 1), s[n - 1])
    }
}

/// The commit history of a module from the logs of its files: each commit
/// once (where first seen), newest first.
pub open spec fn merged_log_spec(logs: Seq<Vec<CommitInfo>>) -> Seq<CommitInfo> {
    let d = first_by_sha(concat_logs(logs, logs.len() as int));
    newest_first(d, d.len() as int)
}

proof fn lemma_insert_newest_at(s: Seq<CommitInfo>, c: CommitInfo, pos: int)
    requires
        0 <= pos <= s.len(),
        forall|i: int| pos <= i < s.len() ==> (#[trigger] s[i]).timestamp < c.timestamp,
        pos == 0 || !(s[pos - 1].timestamp < c.timestamp),
    ensures
        insert_newest_first(s, c) == s.insert(pos, c),
    decreases s.len(),
{
    if s.len() == 0 {
        assert(s.insert(pos, c) =~= seq![c]);
    } else if pos == s.len() {
        assert(s.insert(pos, c) =~= s.push(c));
    } else {
        lemma_insert_newest_at(s.drop_last(), c, pos);
        assert(s.insert(pos, c) =~= s.drop_last().insert(pos, c).push(s.last()));
    }
}

fn copy_commit(c: &CommitInfo) -> (res: CommitInfo)
    ensures
        res == *c,
{
    CommitInfo {
        sha: c.sha.clone(),
        short_sha: c.short_sha.clone(),
        author: c.author.clone(),
        email: c.email.clone(),
        timestamp: c.timestamp,
        summary: c.summary.clone(),
        message: c.message.clone(),
    }
}

fn contains_sha(s: &Vec<CommitInfo>, sha: &String) -> (res: bool)
    ensures
        res == has_sha(s@, sha@),
{
    let mut k: usize = 0;
    while k < s.len()
        invariant
            k <= s.len(),
            forall|q: int| 0 <= q < k ==> (#[trigger] s@[q]).sha@ != sha@,
        decreases s.len() - k,
    {
        if s[k].sha == *sha {
            return true;
        }
        k = k + 1;
    }
    false
}

/// The commit history of a module from the logs of its files (each log
/// newest first, as git gives it): each commit once, where first seen,
/// then stably sorted newest first.
pub fn merge_commit_logs(logs: &Vec<Vec<CommitInfo>>) -> (res: Vec<CommitInfo>)
    ensures
        res@ == merged_log_spec(logs@),
{
    let mut seen: Vec<CommitInfo> = Vec::new();
    let mut i: usize = 0;
    while i < logs.len()
        invariant
            i <= logs.len(),
            seen@ == first_by_sha(concat_logs(logs@, i as int)),
        decreases logs.len() - i,
    {
        let log = &logs[i];
        let ghost before = concat_logs(logs@, i as int);
        let mut j: usize = 0;
        assert(before + log@.take(0) =~= before);
        while j < log.len()
            invariant
                j <= log.len(),
                seen@ == first_by_sha(before + log@.take(j as int)),
            decreases log.len() - j,
        {
            let c = &log[j];
            let ghost cur = before + log@.take(j + 1);
            assert(cur.drop_last() =~= before + log@.take(j as int));
            assert(cur.last() == *c);
            if !contains_sha(&seen, &c.sha) {
                seen.push(copy_commit(c));
            }
            j = j + 1;
        }
        assert(before + log@.take(log.len() as int) =~= concat_logs(logs@, i + 1));
        i = i + 1;
    }
    let ghost d = seen@;
    let mut sorted: Vec<CommitInfo> = Vec::new();
    let mut k: usize = 0;
    while k < seen.len()
        invariant
            k <= seen.len(),
            d == seen@,
            sorted@ == newest_first(d, k as int),
        decreases seen.len() - k,
    {
        let c = copy_commit(&seen[k]);
        let ghost sv = sorted@;
        let mut pos = sorted.len();
        while pos > 0 && sorted[pos - 1].timestamp < c.timestamp
            invariant
                pos <= sorted@.len(),
                sv == sorted@,
                forall|q: int| pos <= q < sv.len() ==> (#[trigger] sv[q]).timestamp < c.timestamp,
            decreases pos,
        {
            pos = pos - 1;
        }
        proof {
            lemma_insert_newest_at(sv, c, pos as int);
        }
        sorted.insert(pos, c);
        k = k + 1;
    }
    sorted
}

/// No two commits of `s` have the same id.
pub open spec fn distinct_shas(s: Seq<CommitInfo>) -> bool {
    forall|i: int, j: int| 0 <= i < j < s.len() ==> (#[trigger] s[i]).sha@ != (#[trigger] s[j]).sha@
}

/// `s` is ordered newest first.
pub open spec fn newest_first_ordered(s: Seq<CommitInfo>) -> bool {
    forall|i: int, j: int| 0 <= i < j < s.len() ==> (#[trigger] s[i]).timestamp >= (#[trigger] s[j]).timestamp
}

proof fn lemma_first_by_sha(s: Seq<CommitInfo>)
    ensures
        distinct_shas(first_by_sha(s)),
        forall|k: int| 0 <= k < s.len() ==> has_sha(first_by_sha(s), (#[trigger] s[k]).sha@),
        forall|i: int| 0 <= i < first_by_sha(s).len() ==> s.contains(#[trigger] first_by_sha(s)[i]),
    decreases s.len(),
{
    if s.len() > 0 {
        let p = s.drop_last();
        lemma_first_by_sha(p);
        let d = first_by_sha(p);
        let r = first_by_sha(s);
        assert forall|k: int| 0 <= k < s.len() implies has_sha(r, (#[trigger] s[k]).sha@) by {
            if k < s.len() - 1 {
                assert(p[k] == s[k]);
                assert(has_sha(d, p[k].sha@));
                let q = choose|q: int| 0 <= q < d.len() && (#[trigger] d[q]).sha@ == p[k].sha@;
                assert(r[q] == d[q]);
            } else if !has_sha(d, s.last().sha@) {
                assert(r[d.len() as int] == s.last());
            }
        }
        assert forall|i: int| 0 <= i < r.len() implies s.contains(#[trigger] r[i]) by {
            if i < d.len() {
                assert(p.contains(d[i]));
                let q = choose|q: int| 0 <= q < p.len() && p[q] == d[i];
                assert(s[q] == p[q]);
            } else {
                assert(s[s.len() - 1] == r[i]);
            }
        }
    }
}

/// Where `insert_newest_first` puts `c`.
proof fn lemma_insert_newest_pos(s: Seq<CommitInfo>, c: CommitInfo) -> (p: int)
    requires
        newest_first_ordered(s),
    ensures
        0 <= p <= s.len(),
        insert_newest_first(s, c) == s.insert(p, c),
        forall|i: int| 0 <= i < p ==> (#[trigger] s[i]).timestamp >= c.timestamp,
        forall|i: int| p <= i < s.len() ==> (#[trigger] s[i]).timestamp < c.timestamp,
    decreases s.len(),
{
    if s.len() == 0 {
        assert(s.insert(0, c) =~= seq![c]);
        0
    } else if s.last().timestamp < c.timestamp {
        let q = lemma_insert_newest_pos(s.drop_last(), c);
        assert(s.insert(q, c) =~= s.drop_last().insert(q, c).push(s.last()));
        assert forall|i: int| q <= i < s.len() implies (#[trigger] s[i]).timestamp < c.timestamp by {
            if i < s.len() - 1 {
                assert(s.drop_last()[i] == s[i]);
            }
        }
        assert forall|i: int| 0 <= i < q implies (#[trigger] s[i]).timestamp >= c.timestamp by {
            assert(s.drop_last()[i] == s[i]);
        }
        q
    } else {
        assert(s.insert(s.len() as int, c) =~= s.push(c));
        assert forall|i: int| 0 <= i < s.len() implies (#[trigger] s[i]).timestamp >= c.timestamp by {
            if i < s.len() - 1 {
                assert(s[i].timestamp >= s[s.len() - 1].timestamp);
            }
        }
        s.len() as int
    }
}

proof fn lemma_newest_first(d: Seq<CommitInfo>, n: int)
    requires
        0 <= n <= d.len(),
        distinct_shas(d),
    ensures
        newest_first_ordered(newest_first(d, n)),
        newest_first(d, n).len() == n,
        forall|i: int|
            0 <= i < n ==> exists|k: int| 0 <= k < n && #[trigger] newest_first(d, n)[i] == d[k],
        forall|k: int| 0 <= k < n ==> newest_first(d, n).contains(#[trigger] d[k]),
        distinct_shas(newest_first(d, n)),
    decreases n,
{
    if n > 0 {
        lemma_newest_first(d, n - 1);
        let s = newest_first(d, n - 1);
        let c = d[n - 1];
        let p = lemma_insert_newest_pos(s, c);
        let r = newest_first(d, n);
        assert(r == s.insert(p, c));
        assert forall|i: int, j: int| 0 <= i < j < r.len() implies (#[trigger] r[i]).timestamp >= (
        #[trigger] r[j]).timestamp by {
            if i < p && j < p {
                assert(r[i] == s[i] && r[j] == s[j]);
            } else if i < p && j == p {
                assert(r[i] == s[i]);
            } else if i < p && j > p {
                assert(r[i] == s[i] && r[j] == s[j - 1]);
            } else if i == p {
                assert(r[j] == s[j - 1]);
            } else {
                assert(r[i] == s[i - 1] && r[j] == s[j - 1]);
            }
        }
        assert forall|i: int| 0 <= i < n implies exists|k: int| 0 <= k < n && #[trigger] r[i] == d[k] by {
            if i < p {
                assert(r[i] == s[i]);
                let k = choose|k: int| 0 <= k < n - 1 && s[i] == d[k];
                assert(r[i] == d[k]);
            } else if i == p {
                assert(r[i] == d[n - 1]);
            } else {
                assert(r[i] == s[i - 1]);
                let k = choose|k: int| 0 <= k < n - 1 && s[i - 1] == d[k];
                assert(r[i] == d[k]);
            }
        }
        assert forall|k: int| 0 <= k < n implies r.contains(#[trigger] d[k]) by {
            if k == n - 1 {
                assert(r[p] == d[k]);
            } else {
                assert(s.contains(d[k]));
                let i = choose|i: int| 0 <= i < s.len() && s[i] == d[k];
                if i < p {
                    assert(r[i] == d[k]);
                } else {
                    assert(r[i + 1] == d[k]);
                }
            }
        }
        assert forall|i: int, j: int| 0 <= i < j < r.len() implies (#[trigger] r[i]).sha@ != (
        #[trigger] r[j]).sha@ by {
            let ki = choose|k: int| 0 <= k < n && r[i] == d[k];
            let kj = choose|k: int| 0 <= k < n && r[j] == d[k];
            if ki == kj {
                if i < p && j < p {
                    assert(r[i] == s[i] && r[j] == s[j]);
                } else if i < p && j == p {
                    assert(r[i] == s[i]);
                    let k = choose|k: int| 0 <= k < n - 1 && s[i] == d[k];
                    assert(d[k].sha@ != d[n - 1].sha@);
                } else if i < p && j > p {
                    assert(r[i] == s[i] && r[j] == s[j - 1]);
                } else if i == p {
                    assert(r[j] == s[j - 1]);
                    let k = choose|k: int| 0 <= k < n - 1 && s[j - 1] == d[k];
                    assert(d[k].sha@ != d[n - 1].sha@);
                } else {
                    assert(r[i] == s[i - 1] && r[j] == s[j - 1]);
                }
            } else if ki < kj {
                assert(d[ki].sha@ != d[kj].sha@);
            } else {
                assert(d[kj].sha@ != d[ki].sha@);
            }
        }
    }
}

/// The commit history merged from the logs of a module's files names each
/// commit once, runs newest first, and keeps every commit of every log
/// (by its id).
pub proof fn merged_history_is_complete_unique_and_newest_first(logs: Seq<Vec<CommitInfo>>)
    ensures
        distinct_shas(merged_log_spec(logs)),
        newest_first_ordered(merged_log_spec(logs)),
        forall|k: int|
            0 <= k < concat_logs(logs, logs.len() as int).len() ==> has_sha(
                merged_log_spec(logs),
                (#[trigger] concat_logs(logs, logs.len() as int)[k]).sha@,
            ),
{
    let all = concat_logs(logs, logs.len() as int);
    let d = first_by_sha(all);
    lemma_first_by_sha(all);
    lemma_newest_first(d, d.len() as int);
    let m = merged_log_spec(logs);
    assert forall|k: int| 0 <= k < all.len() implies has_sha(m, (#[trigger] all[k]).sha@) by {
        assert(has_sha(d, all[k].sha@));
        let q = choose|q: int| 0 <= q < d.len() && (#[trigger] d[q]).sha@ == all[k].sha@;
        assert(m.contains(d[q]));
        let i = choose|i: int| 0 <= i < m.len() && m[i] == d[q];
        assert(m[i].sha@ == all[k].sha@);
    }
}

/// The pull requests that commit `c` links: the one that merged it and
/// those its message refers to (`#NNN`), by number.
pub open spec fn commit_pr_set(prs: Seq<PullRequest>, c: CommitInfo) -> Set<u64> {
    let merged = match pr_for_commit_spec(prs, c.sha@) {
        Some(i) => set![prs[i].number],
        None => Set::empty(),
    };
    merged.union(pr_refs_spec(c.message@).to_set())
}

/// The pull-request numbers linked by the first `k` commits.
pub open spec fn commit_pr_numbers(prs: Seq<PullRequest>, commits: Seq<CommitInfo>, k: int) -> Set<
    u64,
>
    decreases k,
{
    if k <= 0 {
        Set::empty()
    } else {
        commit_pr_numbers(prs, commits, k - 1).union(commit_pr_set(prs, commits[k - 1]))
    }
}

/// Whether one of the files of `p` starts with `module_dir` (as text).
pub open spec fn touches_module(p: PullRequest, module_dir: Seq<char>) -> bool {
    exists|k: int| 0 <= k < p.files@.len() && module_dir.is_prefix_of((#[trigger] p.files@[k])@)
}

/// The numbers of the first `k` pull requests that touch `module_dir`.
pub open spec fn file_pr_numbers(prs: Seq<PullRequest>, module_dir: Seq<char>, k: int) -> Set<u64>
    decreases k,
{
    if k <= 0 {
        Set::empty()
    } else if touches_module(prs[k - 1], module_dir) {
        file_pr_numbers(prs, module_dir, k - 1).insert(prs[k - 1].number)
    } else {
        file_pr_numbers(prs, module_dir, k - 1)
    }
}

/// The pull-request numbers a module's bundle links.
pub open spec fn linked_pr_numbers(
    module_dir: Seq<char>,
    commits: Seq<CommitInfo>,
    prs: Seq<PullRequest>,
) -> Set<u64> {
    commit_pr_numbers(prs, commits, commits.len() as int).union(
        file_pr_numbers(prs, module_dir, prs.len() as int),
    )
}

/// The recorded pull requests numbered by `nums`, in that order (the
/// last one recorded with a number; numbers with none are skipped).
pub open spec fn prs_numbered(prs: Seq<PullRequest>, nums: Seq<u64>) -> Seq<PullRequestView>
    decreases nums.len(),
{
    if nums.len() == 0 {
        Seq::empty()
    } else {
        let rest = prs_numbered(prs, nums.drop_last());
        match last_with_number(prs, nums.last(), prs.len() as int) {
            Some(i) => rest.push(prs[i]@),
            None => rest,
        }
    }
}

proof fn lemma_last_issue_bounds(issues: Seq<Issue>, id: Seq<char>, n: int)
    requires
        0 <= n <= issues.len(),
    ensures
        last_issue_with_id(issues, id, n) matches Some(j) ==> 0 <= j < n && issues[j].id@ == id,
    decreases n,
{
    if n > 0 {
        lemma_last_issue_bounds(issues, id, n - 1);
    }
}

proof fn lemma_prs_numbered(prs: Seq<PullRequest>, nums: Seq<u64>)
    requires
        sorted_by(nums, num_lt()),
    ensures
        forall|i: int|
            0 <= i < prs_numbered(prs, nums).len() ==> exists|k: int|
                0 <= k < nums.len() && (#[trigger] prs_numbered(prs, nums)[i]).number == nums[k],
        forall|i: int, j: int|
            0 <= i < j < prs_numbered(prs, nums).len() ==> (#[trigger] prs_numbered(prs, nums)[i]).number
                < (#[trigger] prs_numbered(prs, nums)[j]).number,
    decreases nums.len(),
{
    if nums.len() > 0 {
        let rest = nums.drop_last();
        assert(sorted_by(rest, num_lt()));
        lemma_prs_numbered(prs, rest);
        lemma_last_number_bounds(prs, nums.last(), prs.len() as int);
        let r = prs_numbered(prs, rest);
        let out = prs_numbered(prs, nums);
        assert forall|i: int| 0 <= i < r.len() implies (#[trigger] r[i]).number < nums.last() by {
            let k = choose|k: int| 0 <= k < rest.len() && r[i].number == rest[k];
            assert(num_lt()(nums[k], nums[nums.len() - 1]));
        }
        assert forall|i: int| 0 <= i < out.len() implies exists|k: int|
            0 <= k < nums.len() && (#[trigger] out[i]).number == nums[k] by {
            if i < r.len() {
                assert(out[i] == r[i]);
                let k = choose|k: int| 0 <= k < rest.len() && r[i].number == rest[k];
                assert(out[i].number == nums[k]);
            } else {
                assert(out[i].number == nums[nums.len() - 1]);
            }
        }
        assert forall|i: int, j: int| 0 <= i < j < out.len() implies (#[trigger] out[i]).number < (
        #[trigger] out[j]).number by {
            assert(out[i] == r[i]);
            if j < r.len() {
                assert(out[j] == r[j]);
            }
        }
    }
}

proof fn lemma_issues_with_ids(issues: Seq<Issue>, ids: Seq<Seq<char>>)
    requires
        sorted_by(ids, lex()),
    ensures
        forall|i: int|
            0 <= i < issues_with_ids(issues, ids).len() ==> exists|k: int|
                0 <= k < ids.len() && (#[trigger] issues_with_ids(issues, ids)[i]).id == ids[k],
        forall|i: int, j: int|
            0 <= i < j < issues_with_ids(issues, ids).len() ==> crate::ordered::lex_lt(
                (#[trigger] issues_with_ids(issues, ids)[i]).id,
                (#[trigger] issues_with_ids(issues, ids)[j]).id,
            ),
    decreases ids.len(),
{
    if ids.len() > 0 {
        crate::ordered::lemma_lex_strict_total();
        let rest = ids.drop_last();
        assert(sorted_by(rest, lex()));
        lemma_issues_with_ids(issues, rest);
        lemma_last_issue_bounds(issues, ids.last(), issues.len() as int);
        let r = issues_with_ids(issues, rest);
        let out = issues_with_ids(issues, ids);
        assert forall|i: int| 0 <= i < r.len() implies lex()((#[trigger] r[i]).id, ids.last()) by {
            let k = choose|k: int| 0 <= k < rest.len() && r[i].id == rest[k];
            assert(lex()(ids[k], ids[ids.len() - 1]));
        }
        assert forall|i: int| 0 <= i < out.len() implies exists|k: int|
            0 <= k < ids.len() && (#[trigger] out[i]).id == ids[k] by {
            if i < r.len() {
                assert(out[i] == r[i]);
                let k = choose|k: int| 0 <= k < rest.len() && r[i].id == rest[k];
                assert(out[i].id == ids[k]);
            } else {
                assert(out[i].id == ids[ids.len() - 1]);
            }
        }
        assert forall|i: int, j: int| 0 <= i < j < out.len() implies crate::ordered::lex_lt(
            (#[trigger] out[i]).id,
            (#[trigger] out[j]).id,
        ) by {
            assert(out[i] == r[i]);
            if j < r.len() {
                assert(out[j] == r[j]);
            } else {
                assert(lex()(r[i].id, ids.last()));
            }
        }
    }
}

/// The pull requests of a module's bundle, by increasing number.
pub open spec fn linked_prs_spec(
    module_dir: Seq<char>,
    commits: Seq<CommitInfo>,
    prs: Seq<PullRequest>,
) -> Seq<PullRequestView> {
    prs_numbered(prs, sorted_numbers(linked_pr_numbers(module_dir, commits, prs)))
}

/// The incident ids mentioned in the messages of the first `k` commits.
pub open spec fn commit_incidents(commits: Seq<CommitInfo>, k: int) -> Set<Seq<char>>
    decreases k,
{
    if k <= 0 {
        Set::empty()
    } else {
        commit_incidents(commits, k - 1).union(incident_ids_spec(commits[k - 1].message@).to_set())
    }
}

/// The incidents linked by the pull requests `ps`.
pub open spec fn pr_incidents(ps: Seq<PullRequestView>) -> Set<Seq<char>>
    decreases ps.len(),
{
    if ps.len() == 0 {
        Set::empty()
    } else {
        pr_incidents(ps.drop_last()).union(ps.last().linked_incidents.to_set())
    }
}

/// The recorded issues with the ids `ids`, in that order (the last one
/// recorded with an id; ids with none are skipped).
pub open spec fn issues_with_ids(issues: Seq<Issue>, ids: Seq<Seq<char>>) -> Seq<IssueView>
    decreases ids.len(),
{
    if ids.len() == 0 {
        Seq::empty()
    } else {
        let rest = issues_with_ids(issues, ids.drop_last());
        match last_issue_with_id(issues, ids.last(), issues.len() as int) {
            Some(i) => rest.push(issues[i]@),
            None => rest,
        }
    }
}

/// The issues of a module's bundle: those its commits mention and those
/// its pull requests link, by increasing id.
pub open spec fn linked_issues_spec(
    module_dir: Seq<char>,
    commits: Seq<CommitInfo>,
    prs: Seq<PullRequest>,
    issues: Seq<Issue>,
) -> Seq<IssueView> {
    let linked = linked_prs_spec(module_dir, commits, prs);
    issues_with_ids(
        issues,
        sorted_strings(commit_incidents(commits, commits.len() as int).union(pr_incidents(linked))),
    )
}

fn copy_strings(v: &Vec<String>) -> (res: Vec<String>)
    ensures
        string_views(res@) == string_views(v@),
{
    let res = v.clone();
    assert(res@ =~= v@);
    assert(string_views(res@) =~= string_views(v@));
    res
}

fn copy_opt(o: &Option<String>) -> (res: Option<String>)
    ensures
        opt_view(res) == opt_view(*o),
{
    match o {
        Some(s) => Some(s.clone()),
        None => None,
    }
}

fn copy_pr(p: &PullRequest) -> (res: PullRequest)
    ensures
        res@ == p@,
{
    PullRequest {
        number: p.number,
        title: p.title.clone(),
        state: p.state.clone(),
        author: p.author.clone(),
        merged_at: copy_opt(&p.merged_at),
        closed_at: copy_opt(&p.closed_at),
        merge_commit: copy_opt(&p.merge_commit),
        body: p.body.clone(),
        linked_incidents: copy_strings(&p.linked_incidents),
        linked_tests: copy_strings(&p.linked_tests),
        files: copy_strings(&p.files),
    }
}

fn copy_issue(i: &Issue) -> (res: Issue)
    ensures
        res@ == i@,
{
    Issue {
        id: i.id.clone(),
        number: i.number,
        title: i.title.clone(),
        state: i.state.clone(),
        body: i.body.clone(),
        labels: copy_strings(&i.labels),
        closed_at: copy_opt(&i.closed_at),
    }
}

fn pr_touches_module(p: &PullRequest, module_dir: &str) -> (res: bool)
    ensures
        res == touches_module(*p, module_dir@),
{
    let mut k: usize = 0;
    while k < p.files.len()
        invariant
            k <= p.files@.len(),
            forall|q: int| 0 <= q < k ==> !module_dir@.is_prefix_of((#[trigger] p.files@[q])@),
        decreases p.files.len() - k,
    {
        if starts_with_str(&chars_of(p.files[k].as_str()), module_dir) {
            return true;
        }
        k = k + 1;
    }
    false
}

/// The pull requests indexed by number (std `HashMap`): each number maps
/// to the position of the last pull request that carries it.
fn number_index(prs: &Vec<PullRequest>) -> (res: HashMap<u64, usize>)
    ensures
        forall|n: u64|
            #[trigger] res@.contains_key(n) == last_with_number(prs@, n, prs@.len() as int) is Some,
        forall|n: u64|
            res@.contains_key(n) ==> last_with_number(prs@, n, prs@.len() as int) == Some(
                #[trigger] res@[n] as int,
            ),
{
    broadcast use vstd::std_specs::hash::group_hash_axioms;
    let mut m: HashMap<u64, usize> = HashMap::new();
    let mut i: usize = 0;
    while i < prs.len()
        invariant
            i <= prs@.len(),
            forall|n: u64| #[trigger] m@.contains_key(n) == last_with_number(prs@, n, i as int) is Some,
            forall|n: u64|
                m@.contains_key(n) ==> last_with_number(prs@, n, i as int) == Some(#[trigger] m@[n] as int),
        decreases prs.len() - i,
    {
        m.insert(prs[i].number, i);
        i = i + 1;
    }
    m
}

/// The position that `index` records for number `n`, if any.
fn lookup_number(index: &HashMap<u64, usize>, n: u64) -> (res: Option<usize>)
    ensures
        match res {
            Some(i) => index@.contains_key(n) && index@[n] == i,
            None => !index@.contains_key(n),
        },
{
    broadcast use vstd::std_specs::hash::group_hash_axioms;
    match index.get(&n) {
        Some(i) => Some(*i),
        None => None,
    }
}

/// Gathers the artifacts of the module `module_dir` around its commit
/// history: the pull requests that merged a commit, that a commit message
/// refers to, or whose files lie under the module (by increasing number),
/// and the issues mentioned by a commit message or linked by one of those
/// pull requests (by increasing id).
pub fn link_bundle(module_dir: &str, commits: Vec<CommitInfo>, forge: &ForgeBundle) -> (res:
    ArtifactBundle)
    ensures
        res.module_dir@ == module_dir@,
        res.commits@ == commits@,
        pr_views(res.prs@) == linked_prs_spec(module_dir@, commits@, forge.prs@),
        issue_views(res.issues@) == linked_issues_spec(
            module_dir@,
            commits@,
            forge.prs@,
            forge.issues@,
        ),
        forall|i: int, j: int|
            0 <= i < j < res.prs@.len() ==> (#[trigger] res.prs@[i]).number < (
            #[trigger] res.prs@[j]).number,
        forall|i: int, j: int|
            0 <= i < j < res.issues@.len() ==> crate::ordered::lex_lt(
                (#[trigger] res.issues@[i]).id@,
                (#[trigger] res.issues@[j]).id@,
            ),
{
    let ghost prs = forge.prs@;
    let mut nums: std::collections::BTreeSet<u64> = std::collections::BTreeSet::new();
    let mut ids: Vec<String> = Vec::new();
    let mut k: usize = 0;
    assert(nums@ =~= commit_pr_numbers(prs, commits@, 0));
    assert(string_views(ids@).to_set() =~= commit_incidents(commits@, 0));
    while k < commits.len()
        invariant
            k <= commits@.len(),
            prs == forge.prs@,
            nums@ == commit_pr_numbers(prs, commits@, k as int),
            sorted_by(string_views(ids@), lex()),
            string_views(ids@).to_set() == commit_incidents(commits@, k as int),
        decreases commits.len() - k,
    {
        let c = &commits[k];
        let ghost before = nums@;
        let ghost merged: Set<u64> = match pr_for_commit_spec(prs, c.sha@) {
            Some(i) => set![prs[i].number],
            None => Set::empty(),
        };
        match forge.pr_for_commit(c.sha.as_str()) {
            Some(p) => {
                add_number(&mut nums, p.number);
            },
            None => {},
        }
        assert(nums@ =~= before.union(merged));
        let refs = pr_refs(c.message.as_str());
        add_numbers(&mut nums, &refs);
        assert(nums@ =~= commit_pr_numbers(prs, commits@, k + 1));
        let iids = incident_ids(c.message.as_str());
        insert_all_strings(&mut ids, &iids);
        assert(string_views(iids@) == incident_ids_spec(c.message@));
        assert(string_views(ids@).to_set() =~= commit_incidents(commits@, k + 1));
        k = k + 1;
    }
    let ghost from_commits = nums@;
    let mut q: usize = 0;
    assert(nums@ =~= from_commits.union(file_pr_numbers(prs, module_dir@, 0)));
    while q < forge.prs.len()
        invariant
            q <= prs.len(),
            prs == forge.prs@,
            nums@ == from_commits.union(file_pr_numbers(prs, module_dir@, q as int)),
        decreases prs.len() - q,
    {
        let p = &forge.prs[q];
        if pr_touches_module(p, module_dir) {
            add_number(&mut nums, p.number);
        }
        assert(nums@ =~= from_commits.union(file_pr_numbers(prs, module_dir@, q + 1)));
        q = q + 1;
    }
    let nums = set_numbers(&nums);
    proof {
        lemma_sorted_numbers(nums@);
    }
    let ghost from_commit_ids = string_views(ids@).to_set();
    let by_number = number_index(&forge.prs);
    let mut out_prs: Vec<PullRequest> = Vec::new();
    let mut t: usize = 0;
    assert(nums@.take(0) =~= Seq::<u64>::empty());
    assert(string_views(ids@).to_set() =~= from_commit_ids.union(pr_incidents(pr_views(out_prs@))));
    while t < nums.len()
        invariant
            t <= nums@.len(),
            prs == forge.prs@,
            pr_views(out_prs@) == prs_numbered(prs, nums@.take(t as int)),
            forall|n: u64|
                #[trigger] by_number@.contains_key(n) == last_with_number(prs, n, prs.len() as int) is Some,
            forall|n: u64|
                by_number@.contains_key(n) ==> last_with_number(prs, n, prs.len() as int) == Some(
                    #[trigger] by_number@[n] as int,
                ),
            sorted_by(string_views(ids@), lex()),
            string_views(ids@).to_set() == from_commit_ids.union(pr_incidents(pr_views(out_prs@))),
        decreases nums.len() - t,
    {
        assert(nums@.take(t + 1).drop_last() =~= nums@.take(t as int));
        match lookup_number(&by_number, nums[t]) {
            Some(idx) => {
                proof {
                    lemma_last_number_bounds(prs, nums@[t as int], prs.len() as int);
                }
                let pr = copy_pr(&forge.prs[idx]);
                insert_all_strings(&mut ids, &pr.linked_incidents);
                let ghost ob = pr_views(out_prs@);
                let ghost pv = pr@;
                out_prs.push(pr);
                assert(pr_views(out_prs@) =~= ob.push(pv));
                assert(pr_views(out_prs@).drop_last() =~= ob);
                assert(string_views(ids@).to_set() =~= from_commit_ids.union(
                    pr_incidents(pr_views(out_prs@)),
                ));
            },
            None => {},
        }
        t = t + 1;
    }
    assert(nums@.take(nums@.len() as int) =~= nums@);
    proof {
        lemma_sorted_strings(string_views(ids@));
    }
    let mut out_issues: Vec<Issue> = Vec::new();
    let ghost iv = string_views(ids@);
    let mut u: usize = 0;
    assert(iv.take(0) =~= Seq::<Seq<char>>::empty());
    while u < ids.len()
        invariant
            u <= ids@.len(),
            iv == string_views(ids@),
            issue_views(out_issues@) == issues_with_ids(forge.issues@, iv.take(u as int)),
        decreases ids.len() - u,
    {
        assert(iv.take(u + 1).drop_last() =~= iv.take(u as int));
        assert(iv[u as int] == ids[u as int]@);
        match forge.issue_index(ids[u].as_str()) {
            Some(idx) => {
                let ghost ob = issue_views(out_issues@);
                let is = copy_issue(&forge.issues[idx]);
                let ghost v = is@;
                out_issues.push(is);
                assert(issue_views(out_issues@) =~= ob.push(v));
            },
            None => {},
        }
        u = u + 1;
    }
    assert(iv.take(iv.len() as int) =~= iv);
    proof {
        lemma_prs_numbered(prs, nums@);
        lemma_issues_with_ids(forge.issues@, iv);
        let pv = pr_views(out_prs@);
        assert forall|i: int, j: int| 0 <= i < j < out_prs@.len() implies (#[trigger] out_prs@[i]).number
            < (#[trigger] out_prs@[j]).number by {
            assert(pv[i] == out_prs@[i]@ && pv[j] == out_prs@[j]@);
        }
        let qv = issue_views(out_issues@);
        assert forall|i: int, j: int| 0 <= i < j < out_issues@.len() implies crate::ordered::lex_lt(
            (#[trigger] out_issues@[i]).id@,
            (#[trigger] out_issues@[j]).id@,
        ) by {
            assert(qv[i] == out_issues@[i]@ && qv[j] == out_issues@[j]@);
        }
    }
    let mut dir = String::new();
    push_str(&mut dir, module_dir);
    assert(dir@ =~= module_dir@);
    ArtifactBundle { module_dir: dir, commits, prs: out_prs, issues: out_issues }
}

/// The artifact bundle of the module `module_dir` from the git logs of
/// its files (one log per file, each newest first): the merged commit
/// history and the pull requests and issues linked to it.
pub fn bundle_for_module(module_dir: &str, logs: &Vec<Vec<CommitInfo>>, forge: &ForgeBundle) -> (res:
    ArtifactBundle)
    ensures
        res.module_dir@ == module_dir@,
        res.commits@ == merged_log_spec(logs@),
        pr_views(res.prs@) == linked_prs_spec(module_dir@, merged_log_spec(logs@), forge.prs@),
        issue_views(res.issues@) == linked_issues_spec(
            module_dir@,
            merged_log_spec(logs@),
            forge.prs@,
            forge.issues@,
        ),
{
    let commits = merge_commit_logs(logs);
    link_bundle(module_dir, commits, forge)
}

/// `module_for_path`: the directory holding `path`, relative to the
/// working directory `workdir` (a relative `path` is taken from
/// `workdir`); there is none for a path without a parent or directly in
/// `workdir`.
pub open spec fn module_for_path_spec(path: Seq<char>, workdir: Seq<char>) -> Option<Seq<char>> {
    let abs = join_path(workdir, path);
    match parent_spec(abs) {
        None => None,
        Some(p) => {
            let rel = match strip_prefix_spec(p, workdir) {
                Some(r) => r,
                None => p,
            };
            if rel.len() == 0 {
                None
            } else {
                Some(rel)
            }
        },
    }
}

/// The module directory that contains `path`, relative to `workdir`.
pub fn module_for_path(path: &str, workdir: &str) -> (res: Result<String>)
    ensures
        match res {
            Ok(m) => module_for_path_spec(path@, workdir@) == Some(m@),
            Err(e) => module_for_path_spec(path@, workdir@) is None && (e matches Error::ModuleNotFound(
                p,
            ) && p@ == path@),
        },
{
    let abs = crate::path::join(workdir, path);
    let not_found = |p: &str| -> (e: Error)
        ensures
            e matches Error::ModuleNotFound(x) && x@ == p@,
        {
            let mut s = String::new();
            push_str(&mut s, p);
            assert(s@ =~= p@);
            Error::ModuleNotFound(s)
        };
    let par = match parent(abs.as_str()) {
        Some(p) => p,
        None => return Err(not_found(path)),
    };
    let rel = match strip_prefix(par.as_str(), workdir) {
        Some(r) => r,
        None => par,
    };
    if chars_of(rel.as_str()).len() == 0 {
        return Err(not_found(path));
    }
    Ok(rel)
}

} // verus!
