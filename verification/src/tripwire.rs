//! Tripwire Checker.
//!
//! Matches the removed ranges of a unified diff against the tripwires of
//! the memoirs of the touched modules, and emits one warning per
//! (hunk × tripwire) intersection: a tripwire whose region overlaps lines
//! that a hunk removes raises one warning for that hunk, carrying the
//! first removed range that overlaps it. Warnings come out file by file,
//! hunk by hunk and range by range, and at one range in tripwire order.

use std::sync::Arc;
use vstd::prelude::*;
use crate::config::Config;
use crate::diff::{
    file_views, hunk_fits, removed_ranges_spec, FileDiff, FileDiffModel, HunkModel,
};
use crate::memoir::{ParsedMemoir, TripwireSpec};
use crate::postmortem::{last_with_id, Postmortem, PostmortemIndex};
use crate::text::{
    chars_of, ellipsize, ellipsize_spec, find_seq, find_str, lemma_find_from_bounds, pieces,
    push_str, replace_char, replace_char_spec, split_str, string_of, trim, trim_seq, views,
    has_suffix, seq_eq,
};

verus! {

pub struct TripwireChecker {
    pub config: Arc<Config>,
}

#[derive(Debug, Clone)]
pub struct Warning {
    pub tripwire_id: String,
    pub severity: String,
    pub incident: String,
    pub memoir_quote: String,
    pub guarding_test: String,
    pub test_assertion: String,
    pub suggested_action: String,
    pub trace_id: String,
    pub file: String,
    pub removed_range: [usize; 2],
}

#[derive(Debug, Clone)]
pub struct CheckResult {
    pub warnings: Vec<Warning>,
}

/// Abstract warning.
#[verifier::ext_equal]
pub struct WarningModel {
    pub tripwire_id: Seq<char>,
    pub severity: Seq<char>,
    pub incident: Seq<char>,
    pub memoir_quote: Seq<char>,
    pub guarding_test: Seq<char>,
    pub test_assertion: Seq<char>,
    pub suggested_action: Seq<char>,
    pub trace_id: Seq<char>,
    pub file: Seq<char>,
    pub removed_range: (usize, usize),
}

impl View for Warning {
    type V = WarningModel;

    open spec fn view(&self) -> WarningModel {
        WarningModel {
            tripwire_id: self.tripwire_id@,
            severity: self.severity@,
            incident: self.incident@,
            memoir_quote: self.memoir_quote@,
            guarding_test: self.guarding_test@,
            test_assertion: self.test_assertion@,
            suggested_action: self.suggested_action@,
            trace_id: self.trace_id@,
            file: self.file@,
            removed_range: (self.removed_range[0], self.removed_range[1]),
        }
    }
}

pub open spec fn warning_views(ws: Seq<Warning>) -> Seq<WarningModel> {
    ws.map_values(|w: Warning| w@)
}

/// `s` with backslashes turned into slashes.
pub open spec fn normalize_sep(s: Seq<char>) -> Seq<char> {
    replace_char_spec(s, '\\', '/')
}

/// Two paths name the same file when, after normalizing separators, they
/// are equal or one ends with the other.
pub open spec fn same_file_spec(a: Seq<char>, b: Seq<char>) -> bool {
    let na = normalize_sep(a);
    let nb = normalize_sep(b);
    na == nb || nb.is_suffix_of(na) || na.is_suffix_of(nb)
}

/// Whether two paths name the same file (separator-normalized equality
/// or suffix match).
pub fn same_file(a: &str, b: &str) -> (res: bool)
    ensures
        res == same_file_spec(a@, b@),
{
    let na = replace_char(&chars_of(a), '\\', '/');
    let nb = replace_char(&chars_of(b), '\\', '/');
    seq_eq(&na, &nb) || has_suffix(&na, &nb) || has_suffix(&nb, &na)
}

/// Whether the inclusive ranges `a0..=a1` and `b0..=b1` share a line.
pub fn ranges_overlap(a0: usize, a1: usize, b0: usize, b1: usize) -> (res: bool)
    ensures
        res == (a0 <= b1 && b0 <= a1),
{
    a0 <= b1 && b0 <= a1
}

/// Overlap of inclusive ranges is symmetric.
pub proof fn ranges_overlap_symmetric(a0: usize, a1: usize, b0: usize, b1: usize)
    ensures
        (a0 <= b1 && b0 <= a1) == (b0 <= a1 && a0 <= b1),
{
}

/// `same_file` is symmetric and reflexive.
pub proof fn same_file_symmetric_reflexive(a: Seq<char>, b: Seq<char>)
    ensures
        same_file_spec(a, b) == same_file_spec(b, a),
        same_file_spec(a, a),
{
}

/// The first of the paragraphs `ps[i..]` that, trimmed, is neither empty
/// nor a Markdown heading, trimmed and with its newlines turned into
/// spaces; empty if there is none.
pub open spec fn first_prose_in(ps: Seq<Seq<char>>, i: int) -> Seq<char>
    decreases ps.len() - i,
{
    if i < 0 || i >= ps.len() {
        Seq::empty()
    } else {
        let t = trim_seq(ps[i]);
        if t.len() == 0 || t[0] == '#' {
            first_prose_in(ps, i + 1)
        } else {
            replace_char_spec(t, '\n', ' ')
        }
    }
}

/// First paragraph (blocks separated by a blank line) that is not a
/// Markdown heading.
pub open spec fn first_prose_spec(s: Seq<char>) -> Seq<char> {
    first_prose_in(pieces(s, "\n\n"@), 0)
}

/// First sentence of the first prose paragraph: up to and including the
/// first `.` followed by a space (or the whole paragraph), trimmed.
pub open spec fn first_sentence_spec(s: Seq<char>) -> Option<Seq<char>> {
    let p = first_prose_spec(s);
    if p.len() == 0 {
        None
    } else {
        let end = match find_seq(p, ". "@) {
            Some(i) => i + 1,
            None => p.len() as int,
        };
        Some(trim_seq(p.take(end)))
    }
}

/// The postmortem of incident `id`, if loaded.
pub open spec fn scar_for(docs: Seq<Postmortem>, id: Seq<char>) -> Option<Postmortem> {
    match last_with_id(docs, id, docs.len() as int) {
        Some(i) => Some(docs[i]),
        None => None,
    }
}

/// The quote shown in a warning: the scar's title and its first prose
/// paragraph (cut to 240 characters), or the tripwire's own summary.
pub open spec fn quote_spec(tw: TripwireSpec, scar: Option<Postmortem>) -> Seq<char> {
    match scar {
        Some(pm) => pm.fm.title@ + " \u{2014} "@ + ellipsize_spec(first_prose_spec(pm.body@), 240),
        None => tw.summary@,
    }
}

/// What the guarding test asserts: the scar's first sentence, or a
/// generic line.
pub open spec fn assertion_spec(scar: Option<Postmortem>) -> Seq<char> {
    match scar {
        Some(pm) => match first_sentence_spec(pm.body@) {
            Some(x) => x,
            None => "guarding test asserts the prior fix still holds"@,
        },
        None => "guarding test asserts the prior fix still holds"@,
    }
}

/// The warning raised when `tw` guards part of the range `r` removed from
/// `file`.
pub open spec fn warning_spec(
    tw: TripwireSpec,
    docs: Seq<Postmortem>,
    trace: Seq<char>,
    file: Seq<char>,
    r: (usize, usize),
) -> WarningModel {
    let scar = scar_for(docs, tw.incident@);
    WarningModel {
        tripwire_id: tw.id@,
        severity: "high"@,
        incident: tw.incident@,
        memoir_quote: quote_spec(tw, scar),
        guarding_test: tw.guarding_test@,
        test_assertion: assertion_spec(scar),
        suggested_action: "revert_hunk"@,
        trace_id: trace,
        file: file,
        removed_range: r,
    }
}

/// Whether tripwire `tw` fires on the range `r` removed from `file`.
pub open spec fn fires(tw: TripwireSpec, file: Seq<char>, r: (usize, usize)) -> bool {
    same_file_spec(tw.region.file@, file) && r.0 <= tw.region.lines[1] && tw.region.lines[0] <= r.1
}

/// Warnings raised on the removed range `rs[k]` of a hunk by the first
/// `n` tripwires: a tripwire raises one there when `rs[k]` is the first
/// removed range of the hunk that it guards.
pub open spec fn tripwire_warnings(
    tws: Seq<TripwireSpec>,
    n: int,
    rs: Seq<(usize, usize)>,
    k: int,
    docs: Seq<Postmortem>,
    trace: Seq<char>,
    file: Seq<char>,
) -> Seq<WarningModel>
    decreases n,
{
    if n <= 0 {
        Seq::empty()
    } else {
        let prev = tripwire_warnings(tws, n - 1, rs, k, docs, trace, file);
        if first_at(rs, k, tws[n - 1], file) {
            prev.push(warning_spec(tws[n - 1], docs, trace, file, rs[k]))
        } else {
            prev
        }
    }
}

/// Warnings of a hunk from its first `n` removed ranges `rs`, range by
/// range: each tripwire that guards some removed range raises one warning,
/// at the first such range.
pub open spec fn range_warnings(
    rs: Seq<(usize, usize)>,
    n: int,
    tws: Seq<TripwireSpec>,
    docs: Seq<Postmortem>,
    trace: Seq<char>,
    file: Seq<char>,
) -> Seq<WarningModel>
    decreases n,
{
    if n <= 0 {
        Seq::empty()
    } else {
        range_warnings(rs, n - 1, tws, docs, trace, file) + tripwire_warnings(
            tws,
            tws.len() as int,
            rs,
            n - 1,
            docs,
            trace,
            file,
        )
    }
}

/// Warnings from the first `n` hunks of a file.
pub open spec fn hunk_warnings(
    hs: Seq<HunkModel>,
    n: int,
    tws: Seq<TripwireSpec>,
    docs: Seq<Postmortem>,
    trace: Seq<char>,
    file: Seq<char>,
) -> Seq<WarningModel>
    decreases n,
{
    if n <= 0 {
        Seq::empty()
    } else {
        let rs = removed_ranges_spec(hs[n - 1]);
        hunk_warnings(hs, n - 1, tws, docs, trace, file) + range_warnings(
            rs,
            rs.len() as int,
            tws,
            docs,
            trace,
            file,
        )
    }
}

/// Warnings from the first `n` files of a diff, each checked against the
/// memoir of its module (files without one are skipped).
pub open spec fn file_warnings(
    fs: Seq<FileDiffModel>,
    memoirs: Seq<Option<ParsedMemoir>>,
    n: int,
    docs: Seq<Postmortem>,
    trace: Seq<char>,
) -> Seq<WarningModel>
    decreases n,
{
    if n <= 0 {
        Seq::empty()
    } else {
        file_warnings(fs, memoirs, n - 1, docs, trace) + match memoirs[n - 1] {
            Some(pm) => hunk_warnings(
                fs[n - 1].hunks,
                fs[n - 1].hunks.len() as int,
                pm.frontmatter.tripwires@,
                docs,
                trace,
                fs[n - 1].old_path,
            ),
            None => Seq::empty(),
        }
    }
}

/// Whether every hunk of every file keeps its OLD-line numbers within
/// `usize`.
pub open spec fn files_fit(fs: Seq<FileDiffModel>) -> bool {
    forall|i: int, j: int|
        0 <= i < fs.len() && 0 <= j < fs[i].hunks.len() ==> hunk_fits(#[trigger] fs[i].hunks[j])
}

/// First paragraph that is not a Markdown heading.
pub(crate) fn first_prose_paragraph(s: &Vec<char>) -> (res: Vec<char>)
    ensures
        res@ == first_prose_spec(s@),
{
    let ps = split_str(s, "\n\n");
    let ghost pv = views(ps@);
    let mut i: usize = 0;
    while i < ps.len()
        invariant
            i <= ps.len(),
            pv == views(ps@),
            pv == pieces(s@, "\n\n"@),
            first_prose_in(pv, 0) == first_prose_in(pv, i as int),
        decreases ps.len() - i,
    {
        let t = trim(&ps[i]);
        assert(pv[i as int] == ps@[i as int]@);
        if !(t.len() == 0 || t[0] == '#') {
            return replace_char(&t, '\n', ' ');
        }
        i = i + 1;
    }
    Vec::new()
}

/// First sentence of the first prose paragraph.
pub(crate) fn first_sentence(s: &Vec<char>) -> (res: Option<String>)
    ensures
        match res {
            Some(x) => first_sentence_spec(s@) == Some(x@),
            None => first_sentence_spec(s@) is None,
        },
{
    let para = first_prose_paragraph(s);
    if para.len() == 0 {
        return None;
    }
    let end = match find_str(&para, ". ") {
        Some(i) => {
            proof {
                lemma_find_from_bounds(para@, ". "@, 0);
                reveal_strlit(". ");
            }
            i + 1
        },
        None => para.len(),
    };
    let head = crate::text::slice_of(&para, 0, end);
    Some(string_of(&trim(&head)))
}

/// First prose paragraph, cut to `limit` characters.
pub(crate) fn first_paragraph_trim(s: &Vec<char>, limit: usize) -> (res: String)
    ensures
        res@ == ellipsize_spec(first_prose_spec(s@), limit as int),
{
    let para = first_prose_paragraph(s);
    ellipsize(&para, limit)
}

fn quote_for_tripwire(tw: &TripwireSpec, scar: Option<&Postmortem>) -> (res: String)
    ensures
        res@ == quote_spec(
            *tw,
            match scar {
                Some(p) => Some(*p),
                None => None,
            },
        ),
{
    match scar {
        Some(pm) => {
            let mut s = string_of(&chars_of(pm.fm.title.as_str()));
            push_str(&mut s, " \u{2014} ");
            let first = first_paragraph_trim(&chars_of(pm.body.as_str()), 240);
            push_str(&mut s, first.as_str());
            s
        },
        None => tw.summary.clone(),
    }
}

fn test_assertion(scar: Option<&Postmortem>) -> (res: String)
    ensures
        res@ == assertion_spec(
            match scar {
                Some(p) => Some(*p),
                None => None,
            },
        ),
{
    let fallback = match scar {
        Some(pm) => first_sentence(&chars_of(pm.body.as_str())),
        None => None,
    };
    match fallback {
        Some(x) => x,
        None => {
            let mut s = String::new();
            push_str(&mut s, "guarding test asserts the prior fix still holds");
            assert(s@ =~= "guarding test asserts the prior fix still holds"@);
            s
        },
    }
}

fn literal(s: &str) -> (res: String)
    ensures
        res@ == s@,
{
    let mut r = String::new();
    push_str(&mut r, s);
    assert(r@ =~= s@);
    r
}

fn make_warning(
    tw: &TripwireSpec,
    postmortems: &PostmortemIndex,
    trace_id: &str,
    file: &String,
    r: (usize, usize),
) -> (res: Warning)
    ensures
        res@ == warning_spec(*tw, postmortems.docs@, trace_id@, file@, r),
{
    let scar = postmortems.by_id(tw.incident.as_str());
    let memoir_quote = quote_for_tripwire(tw, scar);
    let test_assertion = test_assertion(scar);
    Warning {
        tripwire_id: tw.id.clone(),
        severity: literal("high"),
        incident: tw.incident.clone(),
        memoir_quote,
        guarding_test: tw.guarding_test.clone(),
        test_assertion,
        suggested_action: literal("revert_hunk"),
        trace_id: literal(trace_id),
        file: file.clone(),
        removed_range: [r.0, r.1],
    }
}

/// Whether `ranges[k]` is the first of `ranges` that tripwire `tw`
/// guards in `file`.
fn first_guarded(ranges: &Vec<(usize, usize)>, k: usize, tw: &TripwireSpec, file: &String) -> (res:
    bool)
    requires
        k < ranges@.len(),
    ensures
        res == first_at(ranges@, k as int, *tw, file@),
{
    if !same_file(tw.region.file.as_str(), file.as_str()) {
        return false;
    }
    let r = ranges[k];
    if !ranges_overlap(r.0, r.1, tw.region.lines[0], tw.region.lines[1]) {
        return false;
    }
    let mut j: usize = 0;
    while j < k
        invariant
            j <= k < ranges@.len(),
            same_file_spec(tw.region.file@, file@),
            forall|k2: int| 0 <= k2 < j ==> !fires(*tw, file@, #[trigger] ranges@[k2]),
        decreases k - j,
    {
        let q = ranges[j];
        if ranges_overlap(q.0, q.1, tw.region.lines[0], tw.region.lines[1]) {
            assert(fires(*tw, file@, ranges@[j as int]));
            return false;
        }
        j = j + 1;
    }
    true
}

impl TripwireChecker {
    pub fn new(config: Arc<Config>) -> (res: Self)
        ensures
            res.config == config,
    {
        Self { config }
    }

    /// Checks the parsed files of a diff against the memoirs of their
    /// modules: `memoirs[i]` is the memoir of the module holding
    /// `files[i]`, or `None` when there is no such module or memoir.
    pub fn check_parsed(
        &self,
        files: &Vec<FileDiff>,
        memoirs: &Vec<Option<ParsedMemoir>>,
        postmortems: &PostmortemIndex,
        trace_id: &str,
    ) -> (res: CheckResult)
        requires
            memoirs@.len() == files@.len(),
            files_fit(file_views(files@)),
        ensures
            warning_views(res.warnings@) == file_warnings(
                file_views(files@),
                memoirs@,
                files@.len() as int,
                postmortems.docs@,
                trace_id@,
            ),
    {
        let ghost fs = file_views(files@);
        let ghost docs = postmortems.docs@;
        let mut warnings: Vec<Warning> = Vec::new();
        let mut fi: usize = 0;
        while fi < files.len()
            invariant
                fs == file_views(files@),
                docs == postmortems.docs@,
                memoirs@.len() == files@.len(),
                files_fit(fs),
                fi <= files.len(),
                warning_views(warnings@) == file_warnings(fs, memoirs@, fi as int, docs, trace_id@),
            decreases files.len() - fi,
        {
            let file = &files[fi];
            assert(fs[fi as int] == file@);
            let ghost before_file = warning_views(warnings@);
            match &memoirs[fi] {
                None => {
                    assert(file_warnings(fs, memoirs@, fi + 1, docs, trace_id@) =~= before_file);
                },
                Some(parsed) => {
                    let tws = &parsed.frontmatter.tripwires;
                    let ghost hs = file@.hunks;
                    let mut hi: usize = 0;
                    while hi < file.hunks.len()
                        invariant
                            fs == file_views(files@),
                            docs == postmortems.docs@,
                            files_fit(fs),
                            fi < files@.len(),
                            file == &files@[fi as int],
                            hs == file@.hunks,
                            hi <= file.hunks.len(),
                            warning_views(warnings@) == before_file + hunk_warnings(
                                hs,
                                hi as int,
                                tws@,
                                docs,
                                trace_id@,
                                file.old_path@,
                            ),
                        decreases file.hunks.len() - hi,
                    {
                        let hunk = &file.hunks[hi];
                        assert(hs[hi as int] == hunk@);
                        assert(fs[fi as int].hunks[hi as int] == hunk@);
                        let ranges = hunk.removed_ranges();
                        let ghost before_hunk = warning_views(warnings@);
                        let mut ri: usize = 0;
                        while ri < ranges.len()
                            invariant
                                docs == postmortems.docs@,
                                ri <= ranges.len(),
                                warning_views(warnings@) == before_hunk + range_warnings(
                                    ranges@,
                                    ri as int,
                                    tws@,
                                    docs,
                                    trace_id@,
                                    file.old_path@,
                                ),
                            decreases ranges.len() - ri,
                        {
                            let ghost before_range = warning_views(warnings@);
                            let mut ti: usize = 0;
                            while ti < tws.len()
                                invariant
                                    docs == postmortems.docs@,
                                    ri < ranges.len(),
                                    ti <= tws.len(),
                                    warning_views(warnings@) == before_range + tripwire_warnings(
                                        tws@,
                                        ti as int,
                                        ranges@,
                                        ri as int,
                                        docs,
                                        trace_id@,
                                        file.old_path@,
                                    ),
                                decreases tws.len() - ti,
                            {
                                let tw = &tws[ti];
                                if first_guarded(&ranges, ri, tw, &file.old_path) {
                                    let w = make_warning(
                                        tw,
                                        postmortems,
                                        trace_id,
                                        &file.old_path,
                                        ranges[ri],
                                    );
                                    let ghost prev = warnings@;
                                    warnings.push(w);
                                    assert(warning_views(warnings@) =~= warning_views(prev).push(w@));
                                }
                                ti = ti + 1;
                            }
                            assert(before_range + tripwire_warnings(
                                tws@,
                                tws@.len() as int,
                                ranges@,
                                ri as int,
                                docs,
                                trace_id@,
                                file.old_path@,
                            ) =~= before_hunk + range_warnings(
                                ranges@,
                                ri + 1,
                                tws@,
                                docs,
                                trace_id@,
                                file.old_path@,
                            ));
                            ri = ri + 1;
                        }
                        assert(before_hunk + range_warnings(
                            ranges@,
                            ranges@.len() as int,
                            tws@,
                            docs,
                            trace_id@,
                            file.old_path@,
                        ) =~= before_file + hunk_warnings(
                            hs,
                            hi + 1,
                            tws@,
                            docs,
                            trace_id@,
                            file.old_path@,
                        ));
                        hi = hi + 1;
                    }
                },
            }
            fi = fi + 1;
        }
        CheckResult { warnings }
    }
}

/// Whether every hunk of every file keeps its OLD-line numbers within
/// `usize`, as `check_parsed` needs.
pub fn diff_fits(files: &Vec<FileDiff>) -> (res: bool)
    ensures
        res == files_fit(file_views(files@)),
{
    let ghost fs = file_views(files@);
    let mut i: usize = 0;
    while i < files.len()
        invariant
            i <= files@.len(),
            fs == file_views(files@),
            forall|a: int, b: int|
                0 <= a < i && 0 <= b < fs[a].hunks.len() ==> hunk_fits(#[trigger] fs[a].hunks[b]),
        decreases files.len() - i,
    {
        let f = &files[i];
        assert(fs[i as int] == f@);
        let mut j: usize = 0;
        while j < f.hunks.len()
            invariant
                i < files@.len(),
                fs == file_views(files@),
                fs[i as int] == f@,
                j <= f.hunks@.len(),
                forall|a: int, b: int|
                    0 <= a < i && 0 <= b < fs[a].hunks.len() ==> hunk_fits(#[trigger] fs[a].hunks[b]),
                forall|b: int| 0 <= b < j ==> hunk_fits(#[trigger] fs[i as int].hunks[b]),
            decreases f.hunks.len() - j,
        {
            assert(fs[i as int].hunks[j as int] == f.hunks@[j as int]@);
            if !f.hunks[j].fits() {
                return false;
            }
            j = j + 1;
        }
        i = i + 1;
    }
    true
}

/// For each file of a diff, the module that holds it (relative to
/// `workdir`), or `None` when no module does; the memoir checked against
/// each file is that module's.
pub fn touched_modules(files: &Vec<FileDiff>, workdir: &str) -> (res: Vec<Option<String>>)
    ensures
        res@.len() == files@.len(),
        forall|i: int|
            0 <= i < files@.len() ==> match #[trigger] res@[i] {
                Some(m) => crate::indexer::module_for_path_spec(files@[i].old_path@, workdir@) == Some(m@),
                None => crate::indexer::module_for_path_spec(files@[i].old_path@, workdir@) is None,
            },
{
    let mut out: Vec<Option<String>> = Vec::new();
    let mut i: usize = 0;
    while i < files.len()
        invariant
            i <= files@.len(),
            out@.len() == i,
            forall|q: int|
                0 <= q < i ==> match #[trigger] out@[q] {
                    Some(m) => crate::indexer::module_for_path_spec(files@[q].old_path@, workdir@) == Some(m@),
                    None => crate::indexer::module_for_path_spec(files@[q].old_path@, workdir@) is None,
                },
        decreases files.len() - i,
    {
        let m = match crate::indexer::module_for_path(files[i].old_path.as_str(), workdir) {
            Ok(m) => Some(m),
            Err(_) => None,
        };
        out.push(m);
        i = i + 1;
    }
    out
}

proof fn lemma_contains_concat<A>(a: Seq<A>, b: Seq<A>, x: A)
    ensures
        (a + b).contains(x) <==> a.contains(x) || b.contains(x),
{
    if a.contains(x) {
        let i = choose|i: int| 0 <= i < a.len() && a[i] == x;
        assert((a + b)[i] == x);
    }
    if b.contains(x) {
        let i = choose|i: int| 0 <= i < b.len() && b[i] == x;
        assert((a + b)[a.len() + i] == x);
    }
    if (a + b).contains(x) {
        let i = choose|i: int| 0 <= i < (a + b).len() && (a + b)[i] == x;
        if i < a.len() {
            assert(a[i] == x);
        } else {
            assert(b[i - a.len()] == x);
        }
    }
}

proof fn lemma_contains_push<A>(a: Seq<A>, y: A, x: A)
    ensures
        a.push(y).contains(x) <==> a.contains(x) || y == x,
{
    assert(a.push(y) =~= a + seq![y]);
    lemma_contains_concat(a, seq![y], x);
    if seq![y].contains(x) {
        let i = choose|i: int| 0 <= i < 1 && seq![y][i] == x;
        assert(i == 0);
    }
    if y == x {
        assert(seq![y][0] == x);
    }
}

/// Whether `rs[k]` is the first of the removed ranges `rs` on which
/// tripwire `tw` fires in `file`.
pub open spec fn first_at(rs: Seq<(usize, usize)>, k: int, tw: TripwireSpec, file: Seq<char>) -> bool {
    &&& 0 <= k < rs.len()
    &&& fires(tw, file, rs[k])
    &&& forall|k2: int| 0 <= k2 < k ==> !fires(tw, file, #[trigger] rs[k2])
}

/// Whether tripwire `t` of the memoir of file `i` fires on hunk `j`, whose
/// first removed range that it guards is range `k`, raising `w`.
pub open spec fn raises(
    fs: Seq<FileDiffModel>,
    memoirs: Seq<Option<ParsedMemoir>>,
    docs: Seq<Postmortem>,
    trace: Seq<char>,
    i: int,
    j: int,
    k: int,
    t: int,
    w: WarningModel,
) -> bool {
    &&& 0 <= i < fs.len()
    &&& memoirs[i] is Some
    &&& 0 <= j < fs[i].hunks.len()
    &&& 0 <= t < memoirs[i]->Some_0.frontmatter.tripwires@.len()
    &&& first_at(
        removed_ranges_spec(fs[i].hunks[j]),
        k,
        memoirs[i]->Some_0.frontmatter.tripwires@[t],
        fs[i].old_path,
    )
    &&& w == warning_spec(
        memoirs[i]->Some_0.frontmatter.tripwires@[t],
        docs,
        trace,
        fs[i].old_path,
        removed_ranges_spec(fs[i].hunks[j])[k],
    )
}

proof fn lemma_tripwire_warnings(
    tws: Seq<TripwireSpec>,
    n: int,
    rs: Seq<(usize, usize)>,
    k: int,
    docs: Seq<Postmortem>,
    trace: Seq<char>,
    file: Seq<char>,
    w: WarningModel,
)
    requires
        0 <= n <= tws.len(),
    ensures
        tripwire_warnings(tws, n, rs, k, docs, trace, file).contains(w) <==> exists|t: int|
            0 <= t < n && #[trigger] first_at(rs, k, tws[t], file) && w == warning_spec(
                tws[t],
                docs,
                trace,
                file,
                rs[k],
            ),
    decreases n,
{
    if n > 0 {
        lemma_tripwire_warnings(tws, n - 1, rs, k, docs, trace, file, w);
        let prev = tripwire_warnings(tws, n - 1, rs, k, docs, trace, file);
        let tw = tws[n - 1];
        if first_at(rs, k, tw, file) {
            lemma_contains_push(prev, warning_spec(tw, docs, trace, file, rs[k]), w);
        }
        if exists|t: int|
            0 <= t < n && #[trigger] first_at(rs, k, tws[t], file) && w == warning_spec(
                tws[t],
                docs,
                trace,
                file,
                rs[k],
            ) {
            let t = choose|t: int|
                0 <= t < n && #[trigger] first_at(rs, k, tws[t], file) && w == warning_spec(
                    tws[t],
                    docs,
                    trace,
                    file,
                    rs[k],
                );
            if t < n - 1 {
                assert(first_at(rs, k, tws[t], file));
            }
        }
    }
}

proof fn lemma_range_warnings(
    rs: Seq<(usize, usize)>,
    n: int,
    tws: Seq<TripwireSpec>,
    docs: Seq<Postmortem>,
    trace: Seq<char>,
    file: Seq<char>,
    w: WarningModel,
)
    requires
        0 <= n <= rs.len(),
    ensures
        range_warnings(rs, n, tws, docs, trace, file).contains(w) <==> exists|t: int, k: int|
            0 <= k < n && 0 <= t < tws.len() && #[trigger] first_at(rs, k, tws[t], file) && w
                == warning_spec(tws[t], docs, trace, file, rs[k]),
    decreases n,
{
    if n > 0 {
        lemma_range_warnings(rs, n - 1, tws, docs, trace, file, w);
        lemma_tripwire_warnings(tws, tws.len() as int, rs, n - 1, docs, trace, file, w);
        lemma_contains_concat(
            range_warnings(rs, n - 1, tws, docs, trace, file),
            tripwire_warnings(tws, tws.len() as int, rs, n - 1, docs, trace, file),
            w,
        );
        if tripwire_warnings(tws, tws.len() as int, rs, n - 1, docs, trace, file).contains(w) {
            let t = choose|t: int|
                0 <= t < tws.len() && #[trigger] first_at(rs, n - 1, tws[t], file) && w
                    == warning_spec(tws[t], docs, trace, file, rs[n - 1]);
            assert(first_at(rs, n - 1, tws[t], file));
        }
        if exists|t: int, k: int|
            0 <= k < n && 0 <= t < tws.len() && #[trigger] first_at(rs, k, tws[t], file) && w
                == warning_spec(tws[t], docs, trace, file, rs[k]) {
            let (t, k) = choose|t: int, k: int|
                0 <= k < n && 0 <= t < tws.len() && #[trigger] first_at(rs, k, tws[t], file) && w
                    == warning_spec(tws[t], docs, trace, file, rs[k]);
            if k == n - 1 {
                assert(first_at(rs, n - 1, tws[t], file));
            } else {
                assert(first_at(rs, k, tws[t], file));
            }
        }
    }
}

proof fn lemma_hunk_warnings(
    hs: Seq<HunkModel>,
    n: int,
    tws: Seq<TripwireSpec>,
    docs: Seq<Postmortem>,
    trace: Seq<char>,
    file: Seq<char>,
    w: WarningModel,
)
    requires
        0 <= n <= hs.len(),
    ensures
        hunk_warnings(hs, n, tws, docs, trace, file).contains(w) <==> exists|j: int, t: int, k: int|
            0 <= j < n && 0 <= t < tws.len() && #[trigger] first_at(
                removed_ranges_spec(hs[j]),
                k,
                tws[t],
                file,
            ) && w == warning_spec(tws[t], docs, trace, file, removed_ranges_spec(hs[j])[k]),
    decreases n,
{
    if n > 0 {
        let rs = removed_ranges_spec(hs[n - 1]);
        lemma_hunk_warnings(hs, n - 1, tws, docs, trace, file, w);
        lemma_range_warnings(rs, rs.len() as int, tws, docs, trace, file, w);
        lemma_contains_concat(
            hunk_warnings(hs, n - 1, tws, docs, trace, file),
            range_warnings(rs, rs.len() as int, tws, docs, trace, file),
            w,
        );
        if range_warnings(rs, rs.len() as int, tws, docs, trace, file).contains(w) {
            let (t, k) = choose|t: int, k: int|
                0 <= k < rs.len() && 0 <= t < tws.len() && #[trigger] first_at(rs, k, tws[t], file)
                    && w == warning_spec(tws[t], docs, trace, file, rs[k]);
            assert(first_at(removed_ranges_spec(hs[n - 1]), k, tws[t], file));
        }
        if exists|j: int, t: int, k: int|
            0 <= j < n && 0 <= t < tws.len() && #[trigger] first_at(
                removed_ranges_spec(hs[j]),
                k,
                tws[t],
                file,
            ) && w == warning_spec(tws[t], docs, trace, file, removed_ranges_spec(hs[j])[k]) {
            let (j, t, k) = choose|j: int, t: int, k: int|
                0 <= j < n && 0 <= t < tws.len() && #[trigger] first_at(
                    removed_ranges_spec(hs[j]),
                    k,
                    tws[t],
                    file,
                ) && w == warning_spec(tws[t], docs, trace, file, removed_ranges_spec(hs[j])[k]);
            if j == n - 1 {
                assert(first_at(rs, k, tws[t], file));
            } else {
                assert(first_at(removed_ranges_spec(hs[j]), k, tws[t], file));
            }
        }
    }
}

proof fn lemma_file_warnings(
    fs: Seq<FileDiffModel>,
    memoirs: Seq<Option<ParsedMemoir>>,
    n: int,
    docs: Seq<Postmortem>,
    trace: Seq<char>,
    w: WarningModel,
)
    requires
        0 <= n <= fs.len(),
        memoirs.len() == fs.len(),
    ensures
        file_warnings(fs, memoirs, n, docs, trace).contains(w) <==> exists|i: int, j: int, k: int, t: int|
            i < n && #[trigger] raises(fs, memoirs, docs, trace, i, j, k, t, w),
    decreases n,
{
    if n > 0 {
        lemma_file_warnings(fs, memoirs, n - 1, docs, trace, w);
        let prev = file_warnings(fs, memoirs, n - 1, docs, trace);
        match memoirs[n - 1] {
            None => {
                assert(file_warnings(fs, memoirs, n, docs, trace) =~= prev);
                if exists|i: int, j: int, k: int, t: int|
                    i < n && #[trigger] raises(fs, memoirs, docs, trace, i, j, k, t, w) {
                    let (i, j, k, t) = choose|i: int, j: int, k: int, t: int|
                        i < n && #[trigger] raises(fs, memoirs, docs, trace, i, j, k, t, w);
                    assert(i != n - 1);
                    assert(raises(fs, memoirs, docs, trace, i, j, k, t, w));
                }
            },
            Some(pm) => {
                let tws = pm.frontmatter.tripwires@;
                let file = fs[n - 1].old_path;
                let hs = fs[n - 1].hunks;
                lemma_hunk_warnings(hs, hs.len() as int, tws, docs, trace, file, w);
                lemma_contains_concat(
                    prev,
                    hunk_warnings(hs, hs.len() as int, tws, docs, trace, file),
                    w,
                );
                if hunk_warnings(hs, hs.len() as int, tws, docs, trace, file).contains(w) {
                    let (j, t, k) = choose|j: int, t: int, k: int|
                        0 <= j < hs.len() && 0 <= t < tws.len() && #[trigger] first_at(
                            removed_ranges_spec(hs[j]),
                            k,
                            tws[t],
                            file,
                        ) && w == warning_spec(tws[t], docs, trace, file, removed_ranges_spec(hs[j])[k]);
                    assert(raises(fs, memoirs, docs, trace, n - 1, j, k, t, w));
                }
                if exists|i: int, j: int, k: int, t: int|
                    i < n && #[trigger] raises(fs, memoirs, docs, trace, i, j, k, t, w) {
                    let (i, j, k, t) = choose|i: int, j: int, k: int, t: int|
                        i < n && #[trigger] raises(fs, memoirs, docs, trace, i, j, k, t, w);
                    if i == n - 1 {
                        assert(first_at(removed_ranges_spec(hs[j]), k, tws[t], file));
                    } else {
                        assert(raises(fs, memoirs, docs, trace, i, j, k, t, w));
                    }
                }
            },
        }
    }
}

/// What `reckon check` is for: a diff raises a warning exactly when a
/// tripwire of the memoir of a file it changes guards lines of that file
/// which one of its hunks removes. Each such (hunk, tripwire) pair raises
/// one warning, carrying the first removed range of the hunk that the
/// tripwire guards.
pub proof fn warns_exactly_on_guarded_removals(
    fs: Seq<FileDiffModel>,
    memoirs: Seq<Option<ParsedMemoir>>,
    docs: Seq<Postmortem>,
    trace: Seq<char>,
    w: WarningModel,
)
    requires
        memoirs.len() == fs.len(),
    ensures
        file_warnings(fs, memoirs, fs.len() as int, docs, trace).contains(w) <==> exists|
            i: int,
            j: int,
            k: int,
            t: int,
        | #[trigger] raises(fs, memoirs, docs, trace, i, j, k, t, w),
{
    lemma_file_warnings(fs, memoirs, fs.len() as int, docs, trace, w);
}

proof fn lemma_first_at_exists(rs: Seq<(usize, usize)>, k: int, tw: TripwireSpec, file: Seq<char>)
    requires
        0 <= k < rs.len(),
        fires(tw, file, rs[k]),
    ensures
        exists|k2: int| 0 <= k2 <= k && #[trigger] first_at(rs, k2, tw, file),
    decreases k,
{
    if exists|k2: int| 0 <= k2 < k && fires(tw, file, #[trigger] rs[k2]) {
        let k2 = choose|k2: int| 0 <= k2 < k && fires(tw, file, #[trigger] rs[k2]);
        lemma_first_at_exists(rs, k2, tw, file);
        let k3 = choose|k3: int| 0 <= k3 <= k2 && #[trigger] first_at(rs, k3, tw, file);
        assert(first_at(rs, k3, tw, file));
    } else {
        assert(first_at(rs, k, tw, file));
    }
}

/// A diff that removes, in a file with a memoir, a range sharing at least
/// one line with the region a tripwire guards in that file is warned
/// about: some warning names that tripwire and that file, with a removed
/// range that shares a line with the region.
pub proof fn guarded_removal_is_warned(
    fs: Seq<FileDiffModel>,
    memoirs: Seq<Option<ParsedMemoir>>,
    docs: Seq<Postmortem>,
    trace: Seq<char>,
    i: int,
    j: int,
    k: int,
    t: int,
)
    requires
        memoirs.len() == fs.len(),
        0 <= i < fs.len(),
        memoirs[i] is Some,
        0 <= j < fs[i].hunks.len(),
        0 <= k < removed_ranges_spec(fs[i].hunks[j]).len(),
        0 <= t < memoirs[i]->Some_0.frontmatter.tripwires@.len(),
        same_file_spec(memoirs[i]->Some_0.frontmatter.tripwires@[t].region.file@, fs[i].old_path),
        removed_ranges_spec(fs[i].hunks[j])[k].0
            <= memoirs[i]->Some_0.frontmatter.tripwires@[t].region.lines[1],
        memoirs[i]->Some_0.frontmatter.tripwires@[t].region.lines[0]
            <= removed_ranges_spec(fs[i].hunks[j])[k].1,
    ensures
        exists|w: WarningModel|
            #[trigger] file_warnings(fs, memoirs, fs.len() as int, docs, trace).contains(w)
                && w.tripwire_id == memoirs[i]->Some_0.frontmatter.tripwires@[t].id@ && w.file
                == fs[i].old_path && w.removed_range.0
                <= memoirs[i]->Some_0.frontmatter.tripwires@[t].region.lines[1]
                && memoirs[i]->Some_0.frontmatter.tripwires@[t].region.lines[0]
                <= w.removed_range.1,
{
    let tw = memoirs[i]->Some_0.frontmatter.tripwires@[t];
    let rs = removed_ranges_spec(fs[i].hunks[j]);
    let file = fs[i].old_path;
    lemma_first_at_exists(rs, k, tw, file);
    let k2 = choose|k2: int| 0 <= k2 <= k && #[trigger] first_at(rs, k2, tw, file);
    let w = warning_spec(tw, docs, trace, file, rs[k2]);
    assert(raises(fs, memoirs, docs, trace, i, j, k2, t, w));
    warns_exactly_on_guarded_removals(fs, memoirs, docs, trace, w);
}

/// Every warning of a diff comes from a tripwire of the memoir of a file
/// it changes, in that file, and carries a range that a hunk of the file
/// removes and that shares at least one line with the guarded region.
pub proof fn every_warning_overlaps_its_region(
    fs: Seq<FileDiffModel>,
    memoirs: Seq<Option<ParsedMemoir>>,
    docs: Seq<Postmortem>,
    trace: Seq<char>,
    w: WarningModel,
)
    requires
        memoirs.len() == fs.len(),
        file_warnings(fs, memoirs, fs.len() as int, docs, trace).contains(w),
    ensures
        exists|i: int, j: int, t: int|
            0 <= i < fs.len() && memoirs[i] is Some && 0 <= j < fs[i].hunks.len() && 0 <= t
                < memoirs[i]->Some_0.frontmatter.tripwires@.len() && #[trigger] removed_ranges_spec(
                fs[i].hunks[j],
            ).contains(w.removed_range) && w.file == fs[i].old_path && w.tripwire_id
                == (#[trigger] memoirs[i]->Some_0.frontmatter.tripwires@[t]).id@ && same_file_spec(
                memoirs[i]->Some_0.frontmatter.tripwires@[t].region.file@,
                fs[i].old_path,
            ) && w.removed_range.0 <= memoirs[i]->Some_0.frontmatter.tripwires@[t].region.lines[1]
                && memoirs[i]->Some_0.frontmatter.tripwires@[t].region.lines[0]
                <= w.removed_range.1,
{
    warns_exactly_on_guarded_removals(fs, memoirs, docs, trace, w);
    let (i, j, k, t) = choose|i: int, j: int, k: int, t: int|
        #[trigger] raises(fs, memoirs, docs, trace, i, j, k, t, w);
    let rs = removed_ranges_spec(fs[i].hunks[j]);
    assert(rs[k] == w.removed_range);
    assert(rs.contains(w.removed_range));
}

} // verus!
