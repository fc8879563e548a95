//! Memoir documents: `<module>/MEMOIR.md`.
//!
//! The frontmatter is the machine-readable layer (`tripwires` live here;
//! that is what tripwire checking matches against). The body is the
//! human-readable layer.

use vstd::prelude::*;
use crate::config::join_path;
use crate::git::CommitInfo;
use crate::indexer::{last_issue_with_id, pr_for_commit_spec, ArtifactBundle, ForgeBundle, PullRequest};
use crate::number::{decimal, push_usize};
use crate::ordered::{insert_string, lemma_sorted_strings, lex, sorted_by, sorted_strings, string_views};
use crate::path::{file_name, file_name_spec, path_starts_with, starts_with};
use crate::postmortem::{
    last_with_id, split_frontmatter, split_frontmatter_spec, CodeRef, Postmortem, PostmortemIndex,
};
use crate::refs::{incident_ids, incident_ids_spec};
use crate::text::{chars_of, find_from, find_seq, lowercase, lowercase_spec, push_char, push_str, seq_eq, skip_char};
use crate::tripwire::{first_prose_paragraph, first_prose_spec, scar_for};
use crate::{Error, Result};

verus! {

/// File name of a memoir inside its module directory.
pub const MEMOIR_FILENAME: &'static str = "MEMOIR.md";

#[derive(Debug, Clone, Default)]
pub struct MemoirFrontmatter {
    pub module: String,
    pub last_updated: String,
    pub last_commit: String,
    /// `"strong"`, `"moderate"` or `"weak"`.
    pub evidence_tier: String,
    pub tripwires: Vec<TripwireSpec>,
}

#[derive(Debug, Clone)]
pub struct TripwireSpec {
    pub id: String,
    pub region: RegionSpec,
    pub incident: String,
    pub guarding_test: String,
    pub summary: String,
}

#[derive(Debug, Clone)]
pub struct RegionSpec {
    pub file: String,
    pub lines: [usize; 2],
}

/// A memoir read back from disk.
#[derive(Debug, Clone)]
pub struct ParsedMemoir {
    pub frontmatter: MemoirFrontmatter,
    pub body: String,
}

/// The text of a memoir: the frontmatter YAML fenced by `---` lines, a
/// blank line, then the body.
pub open spec fn memoir_document_spec(yaml: Seq<char>, body: Seq<char>) -> Seq<char> {
    "---\n"@ + yaml + "---\n\n"@ + body
}

/// Assembles a memoir from its serialized frontmatter and its body, and
/// checks that the frontmatter splits back off it.
pub fn memoir_document(yaml: &str, body: &str) -> (res: Result<String>)
    ensures
        match res {
            Ok(out) => out@ == memoir_document_spec(yaml@, body@) && split_frontmatter_spec(
                out@,
            ) is Ok,
            Err(e) => split_frontmatter_spec(memoir_document_spec(yaml@, body@)) matches Err(m)
                && e matches Error::InvalidMemoir(x) && x@ == m,
        },
{
    let mut out = String::new();
    push_str(&mut out, "---\n");
    push_str(&mut out, yaml);
    push_str(&mut out, "---\n\n");
    push_str(&mut out, body);
    assert(out@ =~= memoir_document_spec(yaml@, body@));
    match split_frontmatter(out.as_str()) {
        Ok(_) => Ok(out),
        Err(e) => Err(e),
    }
}

/// Reads the frontmatter text and the body of a memoir document; a memoir
/// without frontmatter is refused, naming `display_path`.
pub fn read_memoir_document(raw: &str, display_path: &str) -> (res: Result<(String, String)>)
    ensures
        match res {
            Ok((fm, body)) => split_frontmatter_spec(raw@) == core::result::Result::<
                (Seq<char>, Seq<char>),
                Seq<char>,
            >::Ok((fm@, body@)) && fm@.len() > 0,
            Err(e) => match split_frontmatter_spec(raw@) {
                Err(m) => e matches Error::InvalidMemoir(x) && x@ == m,
                Ok((fm, _)) => fm.len() == 0 && (e matches Error::InvalidMemoir(x) && x@
                    == display_path@ + " has no frontmatter"@),
            },
        },
{
    let (fm, body) = split_frontmatter(raw)?;
    if fm.as_str().unicode_len() == 0 {
        let mut m = String::new();
        push_str(&mut m, display_path);
        push_str(&mut m, " has no frontmatter");
        return Err(Error::InvalidMemoir(m));
    }
    let mut b = String::new();
    push_str(&mut b, body);
    Ok((fm, b))
}

/// A memoir written from frontmatter YAML (which, as serde_yaml emits it,
/// ends with a newline) and a body reads back as that YAML without its
/// final newline and that same body, provided the YAML holds no line that
/// starts with `---` and the body does not start with a blank line.
pub proof fn memoir_document_round_trip(fm: Seq<char>, body: Seq<char>)
    requires
        find_seq(fm, "\n---"@) is None,
        body.len() == 0 || body[0] != '\n',
    ensures
        split_frontmatter_spec(memoir_document_spec(fm.push('\n'), body)) == core::result::Result::<
            (Seq<char>, Seq<char>),
            Seq<char>,
        >::Ok((fm, body)),
{
    reveal_strlit("---\n");
    reveal_strlit("\n---");
    reveal_strlit("---\n\n");
    let open: Seq<char> = "---\n"@;
    let close: Seq<char> = "\n---"@;
    let sep: Seq<char> = "---\n\n"@;
    assert(open =~= seq!['-', '-', '-', '\n']);
    assert(close =~= seq!['\n', '-', '-', '-']);
    assert(sep =~= seq!['-', '-', '-', '\n', '\n']);
    let doc = memoir_document_spec(fm.push('\n'), body);
    assert(doc[0] == '-');
    assert(skip_char(doc, '\u{feff}', 0) == 0);
    assert(doc.skip(0) =~= doc);
    assert(open.is_prefix_of(doc));
    let rest = doc.skip(4);
    assert(rest =~= fm + seq!['\n', '-', '-', '-', '\n', '\n'] + body);
    let n = fm.len() as int;
    assert(rest.subrange(n, n + 4) =~= close);
    assert forall|j: int| 0 <= j < n implies !(#[trigger] rest.subrange(j, j + 4) =~= close) by {
        if j + 4 <= n {
            assert(rest.subrange(j, j + 4) =~= fm.subrange(j, j + 4));
            crate::text::lemma_find_from_bounds(fm, close, 0);
        } else {
            let k = n - j;
            assert(1 <= k <= 3);
            assert(rest.subrange(j, j + 4)[k] == '\n');
            assert(close[k] == '-');
        }
    }
    crate::text::lemma_find_first_at(rest, close, 0, n);
    let after = rest.skip(n + 4);
    assert(after =~= seq!['\n', '\n'] + body);
    assert(after[0] == '\n' && after[1] == '\n');
    assert(after.len() == 2 || after[2] != '\n');
    assert(skip_char(after, '\n', 2) == 2);
    assert(skip_char(after, '\n', 1) == 2);
    assert(skip_char(after, '\n', 0) == 2);
    assert(after.skip(2) =~= body);
    assert(rest.take(n) =~= fm);
}


/// Abstract tripwire.
#[verifier::ext_equal]
pub struct TripwireModel {
    pub id: Seq<char>,
    pub file: Seq<char>,
    pub lines: (usize, usize),
    pub incident: Seq<char>,
    pub guarding_test: Seq<char>,
    pub summary: Seq<char>,
}

impl View for TripwireSpec {
    type V = TripwireModel;

    open spec fn view(&self) -> TripwireModel {
        TripwireModel {
            id: self.id@,
            file: self.region.file@,
            lines: (self.region.lines[0], self.region.lines[1]),
            incident: self.incident@,
            guarding_test: self.guarding_test@,
            summary: self.summary@,
        }
    }
}

pub open spec fn tripwire_views(v: Seq<TripwireSpec>) -> Seq<TripwireModel> {
    v.map_values(|t: TripwireSpec| t@)
}

/// An incident id counts when the tracker fixture has an issue with it or
/// a postmortem carries it.
pub open spec fn known_id(forge: ForgeBundle, docs: Seq<Postmortem>, id: Seq<char>) -> bool {
    last_issue_with_id(forge.issues@, id, forge.issues@.len() as int) is Some || last_with_id(
        docs,
        id,
        docs.len() as int,
    ) is Some
}

/// The known incident ids mentioned by the first `n` commits, each with
/// the index of the commit, in commit and mention order.
pub open spec fn incident_pairs(
    commits: Seq<CommitInfo>,
    n: int,
    forge: ForgeBundle,
    docs: Seq<Postmortem>,
) -> Seq<(Seq<char>, int)>
    decreases n,
{
    if n <= 0 {
        Seq::empty()
    } else {
        incident_pairs(commits, n - 1, forge, docs) + incident_ids_spec(
            commits[n - 1].message@,
        ).filter(|id: Seq<char>| known_id(forge, docs, id)).map_values(
            |id: Seq<char>| (id, n - 1),
        )
    }
}

pub open spec fn pair_ids(pairs: Seq<(Seq<char>, int)>) -> Seq<Seq<char>> {
    pairs.map_values(|p: (Seq<char>, int)| p.0)
}

/// The incidents that get a tripwire, in increasing id order.
pub open spec fn incident_keys(
    commits: Seq<CommitInfo>,
    forge: ForgeBundle,
    docs: Seq<Postmortem>,
) -> Seq<Seq<char>> {
    sorted_strings(pair_ids(incident_pairs(commits, commits.len() as int, forge, docs)).to_set())
}

/// The pull request of the first commit (among the first `n` pairs)
/// recorded for incident `id` that has one.
pub open spec fn pr_of_pairs(
    pairs: Seq<(Seq<char>, int)>,
    id: Seq<char>,
    commits: Seq<CommitInfo>,
    prs: Seq<PullRequest>,
    n: int,
) -> Option<int>
    decreases n,
{
    if n <= 0 {
        None
    } else {
        match pr_of_pairs(pairs, id, commits, prs, n - 1) {
            Some(p) => Some(p),
            None => if pairs[n - 1].0 == id {
                pr_for_commit_spec(prs, commits[pairs[n - 1].1].sha@)
            } else {
                None
            },
        }
    }
}

/// The guarding test of a tripwire: the first test linked from its pull
/// request, else the first linked from its postmortem, else a test name
/// derived from the incident id.
pub open spec fn guarding_test_spec(
    id: Seq<char>,
    pr: Option<int>,
    prs: Seq<PullRequest>,
    docs: Seq<Postmortem>,
) -> Seq<char> {
    if pr matches Some(p) && prs[p].linked_tests@.len() > 0 {
        prs[pr->Some_0].linked_tests@[0]@
    } else if scar_for(docs, id) matches Some(pm) && pm.fm.linked_tests@.len() > 0 {
        scar_for(docs, id)->Some_0.fm.linked_tests@[0]@
    } else {
        "tests::"@ + lowercase_spec(id) + "_regression"@
    }
}

/// Index of the first of the first `n` code refs that lies under
/// `module_dir`.
pub open spec fn first_ref_under(refs: Seq<CodeRef>, module_dir: Seq<char>, n: int) -> Option<int>
    decreases n,
{
    if n <= 0 {
        None
    } else {
        match first_ref_under(refs, module_dir, n - 1) {
            Some(k) => Some(k),
            None => if path_starts_with(refs[n - 1].file@, module_dir) {
                Some(n - 1)
            } else {
                None
            },
        }
    }
}

/// The region of a tripwire: the first resolved code ref of the incident's
/// postmortem under the module, else line 1 of `<module>/retry.py`.
pub open spec fn region_spec(id: Seq<char>, module_dir: Seq<char>, docs: Seq<Postmortem>) -> (
    Seq<char>,
    (usize, usize),
) {
    match scar_for(docs, id) {
        Some(pm) => match first_ref_under(
            pm.current_code_refs@,
            module_dir,
            pm.current_code_refs@.len() as int,
        ) {
            Some(k) => (
                pm.current_code_refs@[k].file@,
                (pm.current_code_refs@[k].lines[0], pm.current_code_refs@[k].lines[1]),
            ),
            None => (join_path(module_dir, "retry.py"@), (1usize, 1usize)),
        },
        None => (join_path(module_dir, "retry.py"@), (1usize, 1usize)),
    }
}

/// `TW-` and the index, zero-padded to three digits.
pub open spec fn tripwire_id_spec(idx: nat) -> Seq<char> {
    let d = decimal(idx);
    "TW-"@ + if d.len() < 3 {
        Seq::new((3 - d.len()) as nat, |i: int| '0') + d
    } else {
        d
    }
}

/// The tripwire derived for incident `id`, the `idx`-th incident.
pub open spec fn tripwire_spec(
    id: Seq<char>,
    idx: nat,
    module_dir: Seq<char>,
    commits: Seq<CommitInfo>,
    forge: ForgeBundle,
    docs: Seq<Postmortem>,
) -> TripwireModel {
    let pairs = incident_pairs(commits, commits.len() as int, forge, docs);
    let pr = pr_of_pairs(pairs, id, commits, forge.prs@, pairs.len() as int);
    let (file, lines) = region_spec(id, module_dir, docs);
    TripwireModel {
        id: tripwire_id_spec(idx),
        file: file,
        lines: lines,
        incident: id,
        guarding_test: guarding_test_spec(id, pr, forge.prs@, docs),
        summary: "Region originally added to close "@ + id
            + "; reverting it re-opens the same failure mode."@,
    }
}

/// The tripwires of a module: one per known incident that its commits
/// mention, in increasing id order, numbered from 1.
pub open spec fn derive_spec(
    module_dir: Seq<char>,
    commits: Seq<CommitInfo>,
    forge: ForgeBundle,
    docs: Seq<Postmortem>,
) -> Seq<TripwireModel> {
    incident_keys(commits, forge, docs).map(
        |i: int, id: Seq<char>| tripwire_spec(id, (i + 1) as nat, module_dir, commits, forge, docs),
    )
}

proof fn lemma_first_ref_under(refs: Seq<CodeRef>, module_dir: Seq<char>, n: int)
    requires
        0 <= n <= refs.len(),
    ensures
        match first_ref_under(refs, module_dir, n) {
            Some(k) => 0 <= k < n && path_starts_with(refs[k].file@, module_dir) && forall|k2: int|
                0 <= k2 < k ==> !path_starts_with((#[trigger] refs[k2]).file@, module_dir),
            None => forall|k2: int|
                0 <= k2 < n ==> !path_starts_with((#[trigger] refs[k2]).file@, module_dir),
        },
    decreases n,
{
    if n > 0 {
        lemma_first_ref_under(refs, module_dir, n - 1);
    }
}

/// The resolved code refs of the postmortem of incident `id`, if any.
pub open spec fn incident_refs(docs: Seq<Postmortem>, id: Seq<char>) -> Seq<CodeRef> {
    match scar_for(docs, id) {
        Some(pm) => pm.current_code_refs@,
        None => Seq::empty(),
    }
}

/// Whether one of `refs` names a file at or under `module_dir`.
pub open spec fn some_ref_under(refs: Seq<CodeRef>, module_dir: Seq<char>) -> bool {
    exists|k: int| 0 <= k < refs.len() && path_starts_with((#[trigger] refs[k]).file@, module_dir)
}

/// The region a derived tripwire guards lies in the module: it is the
/// first resolved code ref of the incident's postmortem whose file is at
/// or under `module_dir`, and only when there is no such ref is it line 1
/// of `<module>/retry.py`.
pub proof fn tripwire_regions_lie_in_module(
    module_dir: Seq<char>,
    commits: Seq<CommitInfo>,
    forge: ForgeBundle,
    docs: Seq<Postmortem>,
    i: int,
)
    requires
        0 <= i < derive_spec(module_dir, commits, forge, docs).len(),
    ensures
        some_ref_under(
            incident_refs(docs, derive_spec(module_dir, commits, forge, docs)[i].incident),
            module_dir,
        ) ==> exists|k: int|
            0 <= k < incident_refs(docs, derive_spec(module_dir, commits, forge, docs)[i].incident).len()
                && path_starts_with(
                (#[trigger] incident_refs(
                    docs,
                    derive_spec(module_dir, commits, forge, docs)[i].incident,
                )[k]).file@,
                module_dir,
            ) && (forall|k2: int|
                0 <= k2 < k ==> !path_starts_with(
                    (#[trigger] incident_refs(
                        docs,
                        derive_spec(module_dir, commits, forge, docs)[i].incident,
                    )[k2]).file@,
                    module_dir,
                )) && derive_spec(module_dir, commits, forge, docs)[i].file == incident_refs(
                docs,
                derive_spec(module_dir, commits, forge, docs)[i].incident,
            )[k].file@ && derive_spec(module_dir, commits, forge, docs)[i].lines == (
                incident_refs(docs, derive_spec(module_dir, commits, forge, docs)[i].incident)[k].lines[0],
                incident_refs(docs, derive_spec(module_dir, commits, forge, docs)[i].incident)[k].lines[1],
            ),
        !some_ref_under(
            incident_refs(docs, derive_spec(module_dir, commits, forge, docs)[i].incident),
            module_dir,
        ) ==> derive_spec(module_dir, commits, forge, docs)[i].file == join_path(
            module_dir,
            "retry.py"@,
        ) && derive_spec(module_dir, commits, forge, docs)[i].lines == (1usize, 1usize),
{
    let keys = incident_keys(commits, forge, docs);
    let tw = derive_spec(module_dir, commits, forge, docs)[i];
    assert(tw == tripwire_spec(keys[i], (i + 1) as nat, module_dir, commits, forge, docs));
    let id = keys[i];
    assert(tw.incident == id);
    let refs = incident_refs(docs, id);
    match scar_for(docs, id) {
        Some(pm) => {
            assert(refs == pm.current_code_refs@);
            lemma_first_ref_under(refs, module_dir, refs.len() as int);
            match first_ref_under(refs, module_dir, refs.len() as int) {
                Some(k) => {
                    assert(path_starts_with(refs[k].file@, module_dir));
                    assert(some_ref_under(refs, module_dir));
                    assert(tw.file == refs[k].file@);
                    assert(tw.lines == (refs[k].lines[0], refs[k].lines[1]));
                },
                None => {
                    assert(!some_ref_under(refs, module_dir));
                    assert(tw.file == join_path(module_dir, "retry.py"@));
                },
            }
        },
        None => {
            assert(refs =~= Seq::<CodeRef>::empty());
            assert(!some_ref_under(refs, module_dir));
        },
    }
}

fn text_of(s: &str) -> (res: String)
    ensures
        res@ == s@,
{
    let mut r = String::new();
    push_str(&mut r, s);
    assert(r@ =~= s@);
    r
}

fn is_known(forge: &ForgeBundle, index: &PostmortemIndex, id: &str) -> (res: bool)
    ensures
        res == known_id(*forge, index.docs@, id@),
{
    forge.issue_index(id).is_some() || index.by_id(id).is_some()
}

/// The region of the tripwire for incident `id`.
fn region_for_incident(id: &str, module_dir: &str, index: &PostmortemIndex) -> (res: RegionSpec)
    ensures
        (res.file@, (res.lines[0], res.lines[1])) == region_spec(id@, module_dir@, index.docs@),
{
    if let Some(pm) = index.by_id(id) {
        let refs = &pm.current_code_refs;
        let mut k: usize = 0;
        while k < refs.len()
            invariant
                k <= refs@.len(),
                refs@ == pm.current_code_refs@,
                scar_for(index.docs@, id@) == Some(*pm),
                first_ref_under(refs@, module_dir@, k as int) is None,
            decreases refs.len() - k,
        {
            if starts_with(refs[k].file.as_str(), module_dir) {
                proof {
                    lemma_first_ref_stable(refs@, module_dir@, k + 1, refs@.len() as int);
                }
                return RegionSpec { file: refs[k].file.clone(), lines: [refs[k].lines[0], refs[k].lines[1]] };
            }
            k = k + 1;
        }
    }
    RegionSpec { file: crate::path::join(module_dir, "retry.py"), lines: [1, 1] }
}

proof fn lemma_first_ref_stable(refs: Seq<CodeRef>, module_dir: Seq<char>, i: int, n: int)
    requires
        0 <= i <= n,
        first_ref_under(refs, module_dir, i) is Some,
    ensures
        first_ref_under(refs, module_dir, n) == first_ref_under(refs, module_dir, i),
    decreases n - i,
{
    if i < n {
        lemma_first_ref_stable(refs, module_dir, i, n - 1);
    }
}

proof fn lemma_pr_of_pairs_stable(
    pairs: Seq<(Seq<char>, int)>,
    id: Seq<char>,
    commits: Seq<CommitInfo>,
    prs: Seq<PullRequest>,
    i: int,
    n: int,
)
    requires
        0 <= i <= n,
        pr_of_pairs(pairs, id, commits, prs, i) is Some,
    ensures
        pr_of_pairs(pairs, id, commits, prs, n) == pr_of_pairs(pairs, id, commits, prs, i),
    decreases n - i,
{
    if i < n {
        lemma_pr_of_pairs_stable(pairs, id, commits, prs, i, n - 1);
    }
}

fn tripwire_id(idx: usize) -> (res: String)
    ensures
        res@ == tripwire_id_spec(idx as nat),
{
    let mut digits = String::new();
    push_usize(&mut digits, idx);
    assert(digits@ =~= decimal(idx as nat));
    let dv = chars_of(digits.as_str());
    let mut out = text_of("TW-");
    let ghost d = decimal(idx as nat);
    if dv.len() < 3 {
        let mut z: usize = 0;
        let pad = 3 - dv.len();
        while z < pad
            invariant
                z <= pad,
                pad == 3 - d.len(),
                out@ == "TW-"@ + Seq::new(z as nat, |i: int| '0'),
            decreases pad - z,
        {
            push_char(&mut out, '0');
            z = z + 1;
            assert(out@ =~= "TW-"@ + Seq::new(z as nat, |i: int| '0'));
        }
    }
    push_str(&mut out, digits.as_str());
    assert(out@ =~= tripwire_id_spec(idx as nat));
    out
}

pub open spec fn pair_views(v: Seq<(String, usize)>) -> Seq<(Seq<char>, int)> {
    v.map_values(|p: (String, usize)| (p.0@, p.1 as int))
}

fn guarding_test(
    id: &str,
    pr: Option<usize>,
    forge: &ForgeBundle,
    index: &PostmortemIndex,
) -> (res: String)
    requires
        pr matches Some(p) ==> p < forge.prs@.len(),
    ensures
        res@ == guarding_test_spec(
            id@,
            match pr {
                Some(p) => Some(p as int),
                None => None,
            },
            forge.prs@,
            index.docs@,
        ),
{
    if let Some(p) = pr {
        if forge.prs[p].linked_tests.len() > 0 {
            return forge.prs[p].linked_tests[0].clone();
        }
    }
    if let Some(pm) = index.by_id(id) {
        if pm.fm.linked_tests.len() > 0 {
            return pm.fm.linked_tests[0].clone();
        }
    }
    let mut out = text_of("tests::");
    let low = lowercase(id);
    push_str(&mut out, low.as_str());
    push_str(&mut out, "_regression");
    out
}

/// Derives the tripwires of module `module_dir` from its commits (newest
/// first), the forge fixtures and the postmortems: one per known incident
/// that a commit message mentions.
pub fn derive_tripwires(
    module_dir: &str,
    commits: &Vec<CommitInfo>,
    forge: &ForgeBundle,
    index: &PostmortemIndex,
) -> (res: Vec<TripwireSpec>)
    ensures
        tripwire_views(res@) == derive_spec(module_dir@, commits@, *forge, index.docs@),
        forall|i: int, j: int|
            0 <= i < j < res@.len() ==> crate::ordered::lex_lt(
                (#[trigger] res@[i]).incident@,
                (#[trigger] res@[j]).incident@,
            ),
        forall|i: int| 0 <= i < res@.len() ==> (#[trigger] res@[i]).id@ == tripwire_id_spec((i + 1) as nat),
{
    let ghost docs = index.docs@;
    let ghost known = |id: Seq<char>| known_id(*forge, docs, id);
    let mut pairs: Vec<(String, usize)> = Vec::new();
    let mut keys: Vec<String> = Vec::new();
    let mut ci: usize = 0;
    assert(pair_views(pairs@) =~= Seq::<(Seq<char>, int)>::empty());
    assert(string_views(keys@).to_set() =~= pair_ids(pair_views(pairs@)).to_set());
    while ci < commits.len()
        invariant
            ci <= commits@.len(),
            docs == index.docs@,
            known == (|id: Seq<char>| known_id(*forge, docs, id)),
            pair_views(pairs@) == incident_pairs(commits@, ci as int, *forge, docs),
            sorted_by(string_views(keys@), lex()),
            string_views(keys@).to_set() == pair_ids(pair_views(pairs@)).to_set(),
            forall|k: int| 0 <= k < pairs@.len() ==> (#[trigger] pairs@[k]).1 < ci,
        decreases commits.len() - ci,
    {
        let ids = incident_ids(commits[ci].message.as_str());
        let ghost idv = ids@.map_values(|s: String| s@);
        let ghost before = pair_views(pairs@);
        let ghost tag = |id: Seq<char>| (id, ci as int);
        let mut j: usize = 0;
        assert(idv.take(0).filter(known) =~= Seq::<Seq<char>>::empty()) by {
            reveal(Seq::filter);
        }
        assert(pair_views(pairs@) =~= before + idv.take(0).filter(known).map_values(tag));
        while j < ids.len()
            invariant
                j <= ids@.len(),
                idv == ids@.map_values(|s: String| s@),
                idv.len() == ids@.len(),
                ci < commits@.len(),
                docs == index.docs@,
                known == (|id: Seq<char>| known_id(*forge, docs, id)),
                tag == (|id: Seq<char>| (id, ci as int)),
                pair_views(pairs@) == before + idv.take(j as int).filter(known).map_values(tag),
                sorted_by(string_views(keys@), lex()),
                string_views(keys@).to_set() == pair_ids(pair_views(pairs@)).to_set(),
                forall|k: int| 0 <= k < pairs@.len() ==> (#[trigger] pairs@[k]).1 <= ci,
            decreases ids.len() - j,
        {
            proof {
                assert(idv.take(j + 1) =~= idv.take(j as int).push(idv[j as int]));
                idv.take(j as int).lemma_filter_push(idv[j as int], known);
            }
            let id = &ids[j];
            assert(idv[j as int] == id@);
            let ghost pv = pair_views(pairs@);
            if is_known(forge, index, id.as_str()) {
                insert_string(&mut keys, id.as_str());
                pairs.push((id.clone(), ci));
                assert(pair_views(pairs@) =~= pv.push((id@, ci as int)));
                assert(pair_ids(pair_views(pairs@)) =~= pair_ids(pv).push(id@));
                proof {
                    pair_ids(pv).lemma_push_to_set_commute(id@);
                }
                assert(idv.take(j + 1).filter(known).map_values(tag) =~= idv.take(j as int).filter(
                    known,
                ).map_values(tag).push((id@, ci as int)));
            }
            j = j + 1;
        }
        assert(idv.take(ids@.len() as int) =~= idv);
        ci = ci + 1;
    }
    let ghost pv = pair_views(pairs@);
    proof {
        lemma_sorted_strings(string_views(keys@));
    }
    let mut out: Vec<TripwireSpec> = Vec::new();
    let mut ki: usize = 0;
    while ki < keys.len()
        invariant
            ki <= keys@.len(),
            docs == index.docs@,
            pv == pair_views(pairs@),
            pv == incident_pairs(commits@, commits@.len() as int, *forge, docs),
            string_views(keys@) == incident_keys(commits@, *forge, docs),
            forall|k: int| 0 <= k < pairs@.len() ==> (#[trigger] pairs@[k]).1 < commits@.len(),
            tripwire_views(out@) == incident_keys(commits@, *forge, docs).take(ki as int).map(
                |i: int, id: Seq<char>|
                    tripwire_spec(id, (i + 1) as nat, module_dir@, commits@, *forge, docs),
            ),
        decreases keys.len() - ki,
    {
        let id = &keys[ki];
        assert(string_views(keys@)[ki as int] == id@);
        // the pull request of the first recorded commit that has one
        let mut pi: usize = 0;
        let mut pr: Option<usize> = None;
        while pi < pairs.len() && pr.is_none()
            invariant
                pi <= pairs@.len(),
                pv == pair_views(pairs@),
                forall|k: int| 0 <= k < pairs@.len() ==> (#[trigger] pairs@[k]).1 < commits@.len(),
                match pr {
                    Some(p) => pr_of_pairs(pv, id@, commits@, forge.prs@, pi as int) == Some(
                        p as int,
                    ) && p < forge.prs@.len(),
                    None => pr_of_pairs(pv, id@, commits@, forge.prs@, pi as int) is None,
                },
            decreases pairs.len() - pi,
        {
            let (pid, pc) = &pairs[pi];
            assert(pv[pi as int] == (pid@, *pc as int));
            if seq_eq(&chars_of(pid.as_str()), &chars_of(id.as_str())) {
                pr = forge.pr_index_for_commit(commits[*pc].sha.as_str());
            }
            pi = pi + 1;
        }
        proof {
            if pr is Some {
                lemma_pr_of_pairs_stable(pv, id@, commits@, forge.prs@, pi as int, pv.len() as int);
            }
        }
        let guarding_test = guarding_test(id.as_str(), pr, forge, index);
        let region = region_for_incident(id.as_str(), module_dir, index);
        let mut summary = text_of("Region originally added to close ");
        push_str(&mut summary, id.as_str());
        push_str(&mut summary, "; reverting it re-opens the same failure mode.");
        let tw = TripwireSpec {
            id: tripwire_id(ki + 1),
            region,
            incident: id.clone(),
            guarding_test,
            summary,
        };
        let ghost before = tripwire_views(out@);
        out.push(tw);
        proof {
            let ks = incident_keys(commits@, *forge, docs);
            let f = |i: int, id: Seq<char>|
                tripwire_spec(id, (i + 1) as nat, module_dir@, commits@, *forge, docs);
            assert(ks.take(ki + 1).map(f) =~= ks.take(ki as int).map(f).push(f(ki as int, ks[ki as int])));
            assert(tw@ =~= f(ki as int, ks[ki as int]));
            assert(tripwire_views(out@) =~= before.push(tw@));
        }
        ki = ki + 1;
    }
    proof {
        let ks = incident_keys(commits@, *forge, docs);
        assert(ks.take(ks.len() as int) =~= ks);
        assert(sorted_by(ks, lex()));
        assert forall|i: int| 0 <= i < out@.len() implies (#[trigger] out@[i]).incident@ == ks[i]
            && out@[i].id@ == tripwire_id_spec((i + 1) as nat) by {
            assert(tripwire_views(out@)[i] == out@[i]@);
        }
        assert forall|i: int, j: int| 0 <= i < j < out@.len() implies crate::ordered::lex_lt(
            (#[trigger] out@[i]).incident@,
            (#[trigger] out@[j]).incident@,
        ) by {
            assert(out@[i].incident@ == ks[i] && out@[j].incident@ == ks[j]);
            assert(lex()(ks[i], ks[j]));
        }
    }
    out
}


/// Evidence tier of a module from its counts of commits, incidents
/// (issues and postmortems) and pull requests.
pub open spec fn tier_spec(c: int, i: int, p: int) -> Seq<char> {
    if c >= 3 && i >= 1 && p >= 1 {
        "strong"@
    } else if c >= 1 && (i >= 1 || p >= 1) {
        "moderate"@
    } else {
        "weak"@
    }
}

/// Evidence tier of a bundle with `postmortems` linked postmortems.
pub fn tier(bundle: &ArtifactBundle, postmortems: usize) -> (res: String)
    ensures
        res@ == tier_spec(
            bundle.commits@.len() as int,
            bundle.issues@.len() + postmortems,
            bundle.prs@.len() as int,
        ),
{
    let c = bundle.commits.len();
    let i = bundle.issues.len() > 0 || postmortems > 0;
    let p = bundle.prs.len();
    if c >= 3 && i && p >= 1 {
        text_of("strong")
    } else if c >= 1 && (i || p >= 1) {
        text_of("moderate")
    } else {
        text_of("weak")
    }
}

/// First paragraph of `s` that is not a Markdown heading.
pub fn first_paragraph(s: &str) -> (res: String)
    ensures
        res@ == first_prose_spec(s@),
{
    string_of_chars(&first_prose_paragraph(&chars_of(s)))
}

fn string_of_chars(v: &Vec<char>) -> (res: String)
    ensures
        res@ == v@,
{
    crate::text::string_of(v)
}

/// Where a postmortem is shown from: `postmortems/<file name>`, or the
/// path itself when it has no file name.
pub open spec fn relpath_spec(p: Seq<char>) -> Seq<char> {
    match file_name_spec(p) {
        Some(n) => "postmortems/"@ + n,
        None => p,
    }
}

pub fn relpath_from_repo(p: &str) -> (res: String)
    ensures
        res@ == relpath_spec(p@),
{
    match file_name(p) {
        Some(n) => {
            let mut out = text_of("postmortems/");
            push_str(&mut out, n.as_str());
            out
        },
        None => text_of(p),
    }
}

pub open spec fn dec(n: int) -> Seq<char> {
    decimal(n as nat)
}

/// Title and evidence line of a memoir body.
#[verifier::opaque]
pub open spec fn header_spec(
    module_display: Seq<char>,
    now: Seq<char>,
    last_commit: Seq<char>,
    nc: int,
    ni: int,
    np: int,
    nt: int,
) -> Seq<char> {
    "# "@ + module_display + " \u{2014} Memoir\n\n"@ + "_Last updated **"@ + now + "** \u{b7} `"@
        + last_commit + "` \u{b7} "@ + dec(nc) + " commits \u{b7} "@ + dec(ni) + " incidents \u{b7} "@
        + dec(np) + " PRs \u{b7} "@ + dec(nt) + " guarding "@ + (if nt == 1 {
        "test"@
    } else {
        "tests"@
    }) + "._\n\n"@
}

pub open spec fn commit_line_spec(n: int, c: CommitInfo) -> Seq<char> {
    dec(n) + ". **"@ + c.summary@ + "** \u{2014} commit `"@ + c.short_sha@ + "`.[^"@ + dec(n) + "]\n"@
}

pub open spec fn footnote_spec(n: int, c: CommitInfo) -> Seq<char> {
    "[^"@ + dec(n) + "]: commit `"@ + c.short_sha@ + "` \u{2014} \""@ + c.summary@ + "\"\n"@
}

/// Lines for the first `k` commits, numbered from 1.
pub open spec fn commit_lines(cs: Seq<CommitInfo>, k: int) -> Seq<char>
    decreases k,
{
    if k <= 0 {
        Seq::empty()
    } else {
        commit_lines(cs, k - 1) + commit_line_spec(k, cs[k - 1])
    }
}

/// Footnotes for the first `k` commits, numbered from 1.
pub open spec fn footnotes(cs: Seq<CommitInfo>, k: int) -> Seq<char>
    decreases k,
{
    if k <= 0 {
        Seq::empty()
    } else {
        footnotes(cs, k - 1) + footnote_spec(k, cs[k - 1])
    }
}

pub open spec fn shown_commits(cs: Seq<CommitInfo>) -> int {
    if cs.len() < 8 {
        cs.len() as int
    } else {
        8
    }
}

#[verifier::opaque]
pub open spec fn why_section(cs: Seq<CommitInfo>) -> Seq<char> {
    "## Why it's shaped this way\n\n"@ + if cs.len() == 0 {
        "_No commits indexed yet._\n\n"@
    } else {
        commit_lines(cs, shown_commits(cs)) + "\n"@
    }
}

#[verifier::opaque]
pub open spec fn scar_line_spec(pm: Postmortem) -> Seq<char> {
    "> **"@ + pm.fm.id@ + " \u{b7} "@ + pm.fm.date@ + " \u{b7} "@ + pm.fm.title@ + "**\n>\n> "@
        + first_prose_spec(pm.body@) + "\n>\n> See `"@ + relpath_spec(pm.source_path@) + "`.\n\n"@
}

pub open spec fn scar_lines(pms: Seq<Postmortem>, k: int) -> Seq<char>
    decreases k,
{
    if k <= 0 {
        Seq::empty()
    } else {
        scar_lines(pms, k - 1) + scar_line_spec(pms[k - 1])
    }
}

#[verifier::opaque]
pub open spec fn scars_section(pms: Seq<Postmortem>) -> Seq<char> {
    "## Scars\n\n"@ + if pms.len() == 0 {
        "_No postmortems link to this module._\n\n"@
    } else {
        scar_lines(pms, pms.len() as int)
    }
}

pub open spec fn tripwire_row_spec(t: TripwireSpec) -> Seq<char> {
    "| "@ + t.id@ + " | `"@ + t.region.file@ + ":"@ + dec(t.region.lines[0] as int) + "\u{2013}"@ + dec(
        t.region.lines[1] as int,
    ) + "` | "@ + t.incident@ + " | `"@ + t.guarding_test@ + "` |\n"@
}

pub open spec fn tripwire_rows(ts: Seq<TripwireSpec>, k: int) -> Seq<char>
    decreases k,
{
    if k <= 0 {
        Seq::empty()
    } else {
        tripwire_rows(ts, k - 1) + tripwire_row_spec(ts[k - 1])
    }
}

#[verifier::opaque]
pub open spec fn tripwires_section(ts: Seq<TripwireSpec>) -> Seq<char> {
    "## Tripwires\n\n"@ + if ts.len() == 0 {
        "_No tripwires registered. A tripwire is generated when an indexed commit references a known incident **and** the same change ships a test._\n\n"@
    } else {
        "| ID | Region | Incident | Guarding test |\n|----|--------|----------|---------------|\n"@
            + tripwire_rows(ts, ts.len() as int) + "\n"@
    }
}

/// A pull request that was closed without being merged.
pub open spec fn is_rejected(p: PullRequest) -> bool {
    p.state@ == "closed"@ && p.merged_at is None
}

/// `s` (sorted by number) with `p` placed after every entry whose number
/// is not greater than its own.
pub open spec fn insert_by_number(s: Seq<PullRequest>, p: PullRequest) -> Seq<PullRequest>
    decreases s.len(),
{
    if s.len() == 0 {
        seq![p]
    } else if p.number < s.last().number {
        insert_by_number(s.drop_last(), p).push(s.last())
    } else {
        s.push(p)
    }
}

/// The first `n` pull requests stably sorted by number.
pub open spec fn sort_by_number(s: Seq<PullRequest>, n: int) -> Seq<PullRequest>
    decreases n,
{
    if n <= 0 {
        Seq::empty()
    } else {
        insert_by_number(sort_by_number(s, n - 1), s[n - 1])
    }
}

/// The rejected pull requests of a bundle, by number.
pub open spec fn rejected_prs(prs: Seq<PullRequest>) -> Seq<PullRequest> {
    let r = prs.filter(|p: PullRequest| is_rejected(p));
    sort_by_number(r, r.len() as int)
}

proof fn lemma_insert_by_number_contains(s: Seq<PullRequest>, p: PullRequest, x: PullRequest)
    ensures
        insert_by_number(s, p).contains(x) <==> s.contains(x) || x == p,
    decreases s.len(),
{
    if s.len() == 0 {
        assert(seq![p][0] == p);
    } else if p.number < s.last().number {
        let t = insert_by_number(s.drop_last(), p);
        let u = t.push(s.last());
        lemma_insert_by_number_contains(s.drop_last(), p, x);
        assert(s =~= s.drop_last().push(s.last()));
        if u.contains(x) {
            let i = choose|i: int| 0 <= i < u.len() && u[i] == x;
            if i < t.len() {
                assert(t[i] == x);
            }
        }
        if s.contains(x) {
            let i = choose|i: int| 0 <= i < s.len() && s[i] == x;
            if i < s.len() - 1 {
                assert(s.drop_last()[i] == x);
                let j = choose|j: int| 0 <= j < t.len() && t[j] == x;
                assert(u[j] == x);
            } else {
                assert(u[t.len() as int] == x);
            }
        }
        if x == p {
            let j = choose|j: int| 0 <= j < t.len() && t[j] == x;
            assert(u[j] == x);
        }
    } else {
        let u = s.push(p);
        if u.contains(x) {
            let i = choose|i: int| 0 <= i < u.len() && u[i] == x;
            if i < s.len() {
                assert(s[i] == x);
            }
        }
        if s.contains(x) {
            let i = choose|i: int| 0 <= i < s.len() && s[i] == x;
            assert(u[i] == x);
        }
        assert(u[s.len() as int] == p);
    }
}

proof fn lemma_sort_by_number_contains(s: Seq<PullRequest>, n: int, x: PullRequest)
    requires
        0 <= n <= s.len(),
    ensures
        sort_by_number(s, n).contains(x) <==> s.take(n).contains(x),
    decreases n,
{
    if n > 0 {
        lemma_sort_by_number_contains(s, n - 1, x);
        lemma_insert_by_number_contains(sort_by_number(s, n - 1), s[n - 1], x);
        assert(s.take(n) =~= s.take(n - 1).push(s[n - 1]));
        let t = s.take(n - 1);
        let u = t.push(s[n - 1]);
        if u.contains(x) {
            let i = choose|i: int| 0 <= i < u.len() && u[i] == x;
            if i < t.len() {
                assert(t[i] == x);
            }
        }
        if t.contains(x) {
            let i = choose|i: int| 0 <= i < t.len() && t[i] == x;
            assert(u[i] == x);
        }
        assert(u[t.len() as int] == s[n - 1]);
    } else {
        assert(s.take(0) =~= Seq::<PullRequest>::empty());
    }
}

/// The pull requests a memoir lists under "Rejected alternatives" are
/// exactly the bundle's pull requests that were closed and never merged:
/// a merged one is never listed, and every closed, unmerged one is.
pub proof fn rejected_alternatives_are_closed_and_unmerged(prs: Seq<PullRequest>, p: PullRequest)
    ensures
        rejected_prs(prs).contains(p) <==> prs.contains(p) && p.state@ == "closed"@
            && p.merged_at is None,
{
    let pred = |q: PullRequest| is_rejected(q);
    let r = prs.filter(pred);
    lemma_sort_by_number_contains(r, r.len() as int, p);
    assert(r.take(r.len() as int) =~= r);
    if r.contains(p) {
        prs.lemma_filter_contains_rev(pred, p);
        let i = choose|i: int| 0 <= i < r.len() && r[i] == p;
        prs.lemma_filter_pred(pred, i);
    }
    if prs.contains(p) && p.state@ == "closed"@ && p.merged_at is None {
        let i = choose|i: int| 0 <= i < prs.len() && prs[i] == p;
        prs.lemma_filter_contains(pred, i);
    }
}

pub open spec fn rejected_line_spec(p: PullRequest) -> Seq<char> {
    "- **PR #"@ + dec(p.number as int) + " (closed "@ + match p.closed_at {
        Some(c) => c@,
        None => "unknown"@,
    } + ")** \u{2014} "@ + p.title@ + ". "@ + first_prose_spec(p.body@) + "\n"@
}

pub open spec fn rejected_lines(ps: Seq<PullRequest>, k: int) -> Seq<char>
    decreases k,
{
    if k <= 0 {
        Seq::empty()
    } else {
        rejected_lines(ps, k - 1) + rejected_line_spec(ps[k - 1])
    }
}

#[verifier::opaque]
pub open spec fn rejected_section(prs: Seq<PullRequest>) -> Seq<char> {
    let r = rejected_prs(prs);
    "## Rejected alternatives\n\n"@ + if r.len() == 0 {
        "_None recorded._\n\n"@
    } else {
        rejected_lines(r, r.len() as int) + "\n"@
    }
}

pub open spec fn what_section() -> Seq<char> {
    "## What this module does\n\nGenerated from the repo at memoir-update time. This section is a short, evidence-bound description of the module's responsibility. Replace this paragraph if a human-authored summary exists at the top of the module \u{2014} Reckon will preserve it on the next regeneration.\n\n"@
}

pub open spec fn footer_spec(last_commit: Seq<char>) -> Seq<char> {
    "---\n\n"@ + "_Auto-maintained by Bob Reckon. Last updated by commit `"@ + last_commit + "`._\n\n"@
}

/// The body of a memoir. `module_display` is how the module directory is
/// shown and `now` the update time shown in the evidence line.
pub open spec fn render_body_spec(
    module_display: Seq<char>,
    now: Seq<char>,
    bundle: ArtifactBundle,
    pms: Seq<Postmortem>,
    ts: Seq<TripwireSpec>,
    last_commit: Seq<char>,
) -> Seq<char> {
    header_spec(
        module_display,
        now,
        last_commit,
        bundle.commits@.len() as int,
        (bundle.issues@.len() + pms.len()) as int,
        bundle.prs@.len() as int,
        ts.len() as int,
    ) + what_section() + why_section(bundle.commits@) + scars_section(pms) + tripwires_section(ts)
        + rejected_section(bundle.prs@) + footer_spec(last_commit) + footnotes(
        bundle.commits@,
        shown_commits(bundle.commits@),
    )
}

proof fn lemma_insert_at(s: Seq<PullRequest>, p: PullRequest, pos: int)
    requires
        0 <= pos <= s.len(),
        forall|i: int| pos <= i < s.len() ==> p.number < (#[trigger] s[i]).number,
        pos == 0 || !(p.number < s[pos - 1].number),
    ensures
        insert_by_number(s, p) == s.insert(pos, p),
    decreases s.len(),
{
    if s.len() == 0 {
        assert(s.insert(pos, p) =~= seq![p]);
    } else if pos == s.len() {
        assert(s.insert(pos, p) =~= s.push(p));
    } else {
        lemma_insert_at(s.drop_last(), p, pos);
        assert(s.insert(pos, p) =~= s.drop_last().insert(pos, p).push(s.last()));
    }
}

fn push_dec(out: &mut String, n: usize)
    ensures
        final(out)@ == old(out)@ + dec(n as int),
{
    push_usize(out, n);
}

fn header(
    module_display: &str,
    now: &str,
    last_commit: &str,
    nc: usize,
    ni: usize,
    np: usize,
    nt: usize,
) -> (res: String)
    ensures
        res@ == header_spec(
            module_display@,
            now@,
            last_commit@,
            nc as int,
            ni as int,
            np as int,
            nt as int,
        ),
{
    reveal(header_spec);
    let mut s = text_of("# ");
    push_str(&mut s, module_display);
    push_str(&mut s, " \u{2014} Memoir\n\n");
    push_str(&mut s, "_Last updated **");
    push_str(&mut s, now);
    push_str(&mut s, "** \u{b7} `");
    push_str(&mut s, last_commit);
    push_str(&mut s, "` \u{b7} ");
    push_dec(&mut s, nc);
    push_str(&mut s, " commits \u{b7} ");
    push_dec(&mut s, ni);
    push_str(&mut s, " incidents \u{b7} ");
    push_dec(&mut s, np);
    push_str(&mut s, " PRs \u{b7} ");
    push_dec(&mut s, nt);
    push_str(&mut s, " guarding ");
    if nt == 1 {
        push_str(&mut s, "test");
    } else {
        push_str(&mut s, "tests");
    }
    push_str(&mut s, "._\n\n");
    assert(s@ =~= header_spec(
        module_display@,
        now@,
        last_commit@,
        nc as int,
        ni as int,
        np as int,
        nt as int,
    ));
    s
}

fn why_and_notes(cs: &Vec<CommitInfo>) -> (res: (String, String))
    ensures
        res.0@ == why_section(cs@),
        res.1@ == footnotes(cs@, shown_commits(cs@)),
{
    reveal(why_section);
    let mut s = text_of("## Why it's shaped this way\n\n");
    let mut notes = String::new();
    if cs.len() == 0 {
        push_str(&mut s, "_No commits indexed yet._\n\n");
        assert(s@ =~= why_section(cs@));
        assert(notes@ =~= footnotes(cs@, 0));
        return (s, notes);
    }
    let k = if cs.len() < 8 {
        cs.len()
    } else {
        8
    };
    let ghost start = s@;
    let mut i: usize = 0;
    assert(s@ =~= start + commit_lines(cs@, 0));
    assert(notes@ =~= footnotes(cs@, 0));
    while i < k
        invariant
            i <= k <= cs@.len(),
            k == shown_commits(cs@),
            s@ == start + commit_lines(cs@, i as int),
            notes@ == footnotes(cs@, i as int),
        decreases k - i,
    {
        let c = &cs[i];
        let n = i + 1;
        let ghost before = s@;
        push_dec(&mut s, n);
        push_str(&mut s, ". **");
        push_str(&mut s, c.summary.as_str());
        push_str(&mut s, "** \u{2014} commit `");
        push_str(&mut s, c.short_sha.as_str());
        push_str(&mut s, "`.[^");
        push_dec(&mut s, n);
        push_str(&mut s, "]\n");
        assert(s@ =~= before + commit_line_spec(n as int, *c));
        let ghost nb = notes@;
        push_str(&mut notes, "[^");
        push_dec(&mut notes, n);
        push_str(&mut notes, "]: commit `");
        push_str(&mut notes, c.short_sha.as_str());
        push_str(&mut notes, "` \u{2014} \"");
        push_str(&mut notes, c.summary.as_str());
        push_str(&mut notes, "\"\n");
        assert(notes@ =~= nb + footnote_spec(n as int, *c));
        i = i + 1;
    }
    push_str(&mut s, "\n");
    assert(s@ =~= why_section(cs@));
    (s, notes)
}

fn scar_line(pm: &Postmortem) -> (res: String)
    ensures
        res@ == scar_line_spec(*pm),
{
    let first = first_paragraph(pm.body.as_str());
    let src = relpath_from_repo(pm.source_path.as_str());
    let mut s = text_of("> **");
    push_str(&mut s, pm.fm.id.as_str());
    push_str(&mut s, " \u{b7} ");
    push_str(&mut s, pm.fm.date.as_str());
    push_str(&mut s, " \u{b7} ");
    push_str(&mut s, pm.fm.title.as_str());
    push_str(&mut s, "**\n>\n> ");
    push_str(&mut s, first.as_str());
    push_str(&mut s, "\n>\n> See `");
    push_str(&mut s, src.as_str());
    push_str(&mut s, "`.\n\n");
    reveal(scar_line_spec);
    assert(s@ =~= scar_line_spec(*pm));
    s
}

fn scars(pms: &Vec<&Postmortem>) -> (res: String)
    ensures
        res@ == scars_section(pms@.map_values(|r: &Postmortem| *r)),
{
    reveal(scars_section);
    let ghost ps = pms@.map_values(|r: &Postmortem| *r);
    let mut s = text_of("## Scars\n\n");
    if pms.len() == 0 {
        push_str(&mut s, "_No postmortems link to this module._\n\n");
        assert(s@ =~= scars_section(ps));
        return s;
    }
    let ghost start = s@;
    let mut i: usize = 0;
    assert(s@ =~= start + scar_lines(ps, 0));
    while i < pms.len()
        invariant
            i <= pms@.len(),
            ps == pms@.map_values(|r: &Postmortem| *r),
            s@ == start + scar_lines(ps, i as int),
        decreases pms.len() - i,
    {
        let pm: &Postmortem = pms[i];
        assert(ps[i as int] == *pm);
        let line = scar_line(pm);
        push_str(&mut s, line.as_str());
        assert(scar_lines(ps, i + 1) == scar_lines(ps, i as int) + scar_line_spec(ps[i as int]));
        assert(s@ =~= start + scar_lines(ps, i + 1));
        i = i + 1;
    }
    assert(ps.len() == pms@.len());
    assert(s@ =~= scars_section(ps));
    s
}

fn tripwire_table(ts: &Vec<TripwireSpec>) -> (res: String)
    ensures
        res@ == tripwires_section(ts@),
{
    reveal(tripwires_section);
    let mut s = text_of("## Tripwires\n\n");
    if ts.len() == 0 {
        push_str(
            &mut s,
            "_No tripwires registered. A tripwire is generated when an indexed commit references a known incident **and** the same change ships a test._\n\n",
        );
        assert(s@ =~= tripwires_section(ts@));
        return s;
    }
    push_str(
        &mut s,
        "| ID | Region | Incident | Guarding test |\n|----|--------|----------|---------------|\n",
    );
    let ghost start = s@;
    let mut i: usize = 0;
    assert(s@ =~= start + tripwire_rows(ts@, 0));
    while i < ts.len()
        invariant
            i <= ts@.len(),
            s@ == start + tripwire_rows(ts@, i as int),
        decreases ts.len() - i,
    {
        let t = &ts[i];
        let ghost before = s@;
        push_str(&mut s, "| ");
        push_str(&mut s, t.id.as_str());
        push_str(&mut s, " | `");
        push_str(&mut s, t.region.file.as_str());
        push_str(&mut s, ":");
        push_dec(&mut s, t.region.lines[0]);
        push_str(&mut s, "\u{2013}");
        push_dec(&mut s, t.region.lines[1]);
        push_str(&mut s, "` | ");
        push_str(&mut s, t.incident.as_str());
        push_str(&mut s, " | `");
        push_str(&mut s, t.guarding_test.as_str());
        push_str(&mut s, "` |\n");
        assert(s@ =~= before + tripwire_row_spec(*t));
        i = i + 1;
    }
    push_str(&mut s, "\n");
    assert(s@ =~= tripwires_section(ts@));
    s
}

pub fn is_rejected_pr(p: &PullRequest) -> (res: bool)
    ensures
        res == is_rejected(*p),
{
    let closed = text_of("closed");
    p.state == closed && p.merged_at.is_none()
}

fn rejected(prs: &Vec<PullRequest>) -> (res: String)
    ensures
        res@ == rejected_section(prs@),
{
    reveal(rejected_section);
    let ghost pred = |p: PullRequest| is_rejected(p);
    let ghost filtered = prs@.filter(pred);
    let mut sorted: Vec<&PullRequest> = Vec::new();
    let mut i: usize = 0;
    let ghost mut fl: Seq<PullRequest> = Seq::empty();
    assert(prs@.take(0).filter(pred) =~= Seq::<PullRequest>::empty()) by {
        reveal(Seq::filter);
    }
    while i < prs.len()
        invariant
            i <= prs@.len(),
            pred == (|p: PullRequest| is_rejected(p)),
            fl == prs@.take(i as int).filter(pred),
            sorted@.map_values(|r: &PullRequest| *r) == sort_by_number(fl, fl.len() as int),
        decreases prs.len() - i,
    {
        let p = &prs[i];
        proof {
            assert(prs@.take(i + 1) =~= prs@.take(i as int).push(*p));
            prs@.take(i as int).lemma_filter_push(*p, pred);
        }
        if is_rejected_pr(p) {
            let ghost sv = sorted@.map_values(|r: &PullRequest| *r);
            let mut pos = sorted.len();
            while pos > 0 && p.number < sorted[pos - 1].number
                invariant
                    pos <= sorted@.len(),
                    sv == sorted@.map_values(|r: &PullRequest| *r),
                    forall|j: int| pos <= j < sv.len() ==> p.number < (#[trigger] sv[j]).number,
                decreases pos,
            {
                pos = pos - 1;
            }
            proof {
                lemma_insert_at(sv, *p, pos as int);
            }
            sorted.insert(pos, p);
            proof {
                assert(sorted@.map_values(|r: &PullRequest| *r) =~= sv.insert(pos as int, *p));
                let nfl = fl.push(*p);
                assert(nfl.drop_last() =~= fl);
                assert(sort_by_number(nfl, nfl.len() as int) == insert_by_number(
                    sort_by_number(nfl, fl.len() as int),
                    *p,
                ));
                lemma_sort_prefix(nfl, fl, fl.len() as int);
                fl = nfl;
            }
        }
        i = i + 1;
    }
    assert(prs@.take(prs@.len() as int) =~= prs@);
    let ghost r = rejected_prs(prs@);
    let mut s = text_of("## Rejected alternatives\n\n");
    if sorted.len() == 0 {
        push_str(&mut s, "_None recorded._\n\n");
        assert(s@ =~= rejected_section(prs@));
        return s;
    }
    let ghost start = s@;
    let mut k: usize = 0;
    assert(s@ =~= start + rejected_lines(r, 0));
    while k < sorted.len()
        invariant
            k <= sorted@.len(),
            r == sorted@.map_values(|x: &PullRequest| *x),
            s@ == start + rejected_lines(r, k as int),
        decreases sorted.len() - k,
    {
        let p: &PullRequest = sorted[k];
        assert(r[k as int] == *p);
        let ghost before = s@;
        push_str(&mut s, "- **PR #");
        push_u64_dec(&mut s, p.number);
        push_str(&mut s, " (closed ");
        match &p.closed_at {
            Some(c) => push_str(&mut s, c.as_str()),
            None => push_str(&mut s, "unknown"),
        }
        push_str(&mut s, ")** \u{2014} ");
        push_str(&mut s, p.title.as_str());
        push_str(&mut s, ". ");
        let first = first_paragraph(p.body.as_str());
        push_str(&mut s, first.as_str());
        push_str(&mut s, "\n");
        assert(s@ =~= before + rejected_line_spec(*p));
        k = k + 1;
    }
    push_str(&mut s, "\n");
    assert(s@ =~= rejected_section(prs@));
    s
}

proof fn lemma_sort_prefix(a: Seq<PullRequest>, b: Seq<PullRequest>, n: int)
    requires
        0 <= n <= b.len(),
        n <= a.len(),
        forall|i: int| 0 <= i < n ==> a[i] == b[i],
    ensures
        sort_by_number(a, n) == sort_by_number(b, n),
    decreases n,
{
    if n > 0 {
        lemma_sort_prefix(a, b, n - 1);
    }
}

fn push_u64_dec(out: &mut String, n: u64)
    ensures
        final(out)@ == old(out)@ + dec(n as int),
{
    crate::number::push_u64(out, n);
}

/// Renders the body of a memoir: title and evidence line, the module
/// description, the commits that shaped it, its scars, its tripwires, the
/// rejected alternatives and the footnotes. `module_display` is how the
/// module directory is shown and `now` the update time shown.
pub fn render_body(
    module_display: &str,
    now: &str,
    bundle: &ArtifactBundle,
    postmortems: &Vec<&Postmortem>,
    tripwires: &Vec<TripwireSpec>,
    last_commit: &str,
) -> (res: String)
    requires
        bundle.issues@.len() + postmortems@.len() <= usize::MAX,
    ensures
        res@ == render_body_spec(
            module_display@,
            now@,
            *bundle,
            postmortems@.map_values(|r: &Postmortem| *r),
            tripwires@,
            last_commit@,
        ),
{
    let mut s = header(
        module_display,
        now,
        last_commit,
        bundle.commits.len(),
        bundle.issues.len() + postmortems.len(),
        bundle.prs.len(),
        tripwires.len(),
    );
    push_str(
        &mut s,
        "## What this module does\n\nGenerated from the repo at memoir-update time. This section is a short, evidence-bound description of the module's responsibility. Replace this paragraph if a human-authored summary exists at the top of the module \u{2014} Reckon will preserve it on the next regeneration.\n\n",
    );
    let (why, notes) = why_and_notes(&bundle.commits);
    push_str(&mut s, why.as_str());
    let sc = scars(postmortems);
    push_str(&mut s, sc.as_str());
    let tw = tripwire_table(tripwires);
    push_str(&mut s, tw.as_str());
    let rj = rejected(&bundle.prs);
    push_str(&mut s, rj.as_str());
    push_str(&mut s, "---\n\n");
    push_str(&mut s, "_Auto-maintained by Bob Reckon. Last updated by commit `");
    push_str(&mut s, last_commit);
    push_str(&mut s, "`._\n\n");
    push_str(&mut s, notes.as_str());
    assert(s@ =~= render_body_spec(
        module_display@,
        now@,
        *bundle,
        postmortems@.map_values(|r: &Postmortem| *r),
        tripwires@,
        last_commit@,
    ));
    s
}

/// The commit a memoir is pinned to: the newest commit of the bundle, or
/// `head` (the repository head) when the bundle has none.
pub open spec fn last_commit_spec(commits: Seq<CommitInfo>, head: Seq<char>) -> Seq<char> {
    if commits.len() > 0 {
        commits[0].short_sha@
    } else {
        head
    }
}

pub fn last_commit(bundle: &ArtifactBundle, head: &str) -> (res: String)
    ensures
        res@ == last_commit_spec(bundle.commits@, head@),
{
    if bundle.commits.len() > 0 {
        bundle.commits[0].short_sha.clone()
    } else {
        text_of(head)
    }
}

/// The frontmatter of a regenerated memoir for the module shown as
/// `module_display`, updated at `now`, with `postmortems` linked
/// postmortems.
pub fn memoir_frontmatter(
    module_display: &str,
    now: &str,
    bundle: &ArtifactBundle,
    postmortems: usize,
    tripwires: Vec<TripwireSpec>,
    last_commit: String,
) -> (res: MemoirFrontmatter)
    ensures
        res.module@ == module_display@,
        res.last_updated@ == now@,
        res.last_commit == last_commit,
        res.evidence_tier@ == tier_spec(
            bundle.commits@.len() as int,
            bundle.issues@.len() + postmortems,
            bundle.prs@.len() as int,
        ),
        res.tripwires == tripwires,
{
    MemoirFrontmatter {
        module: text_of(module_display),
        last_updated: text_of(now),
        last_commit,
        evidence_tier: tier(bundle, postmortems),
        tripwires,
    }
}

} // verus!
