//! References found in free text (commit messages): incident ids such as
//! `IR-117` and pull-request references such as `#2847`, matched with the
//! `regex` crate.

use vstd::prelude::*;
use crate::number::{parse_u64, parse_u64_spec};
use crate::text::chars_of;

verus! {

/// Incident ids: two to four capital letters, a dash, two to five digits.
pub const INCIDENT_PATTERN: &'static str = r"\b([A-Z]{2,4}-\d{2,5})\b";

/// Pull-request references: `#` and one to six digits.
pub const PR_PATTERN: &'static str = r"#(\d{1,6})\b";

/// What `regex::Regex::new(pattern)` followed by `captures_iter(text)`
/// gives: `None` when the pattern does not compile, otherwise for each
/// successive non-overlapping match the text of capture group 1 (`None`
/// where the group did not take part).
pub uninterp spec fn regex_group1(pattern: Seq<char>, text: Seq<char>) -> Option<
    Seq<Option<Seq<char>>>,
>;

pub open spec fn captures_view(c: Option<Vec<Option<String>>>) -> Option<Seq<Option<Seq<char>>>> {
    match c {
        Some(v) => Some(
            v@.map_values(
                |x: Option<String>|
                    match x {
                        Some(s) => Some(s@),
                        None => None,
                    },
            ),
        ),
        None => None,
    }
}

/// Trusted: compiles `pattern` with `regex::Regex::new` and collects
/// capture group 1 of every match of `captures_iter` over `text`; the
/// result is named `regex_group1(pattern, text)`.
#[verifier::external_body]
fn capture_group1(pattern: &str, text: &str) -> (res: Option<Vec<Option<String>>>)
    ensures
        captures_view(res) == regex_group1(pattern@, text@),
{
    match regex::Regex::new(pattern) {
        Ok(re) => Some(
            re.captures_iter(text).map(|c| c.get(1).map(|m| m.as_str().to_string())).collect(),
        ),
        Err(_) => None,
    }
}

/// The group-1 texts that are present, in match order (none when the
/// pattern does not compile).
pub open spec fn present(c: Option<Seq<Option<Seq<char>>>>) -> Seq<Seq<char>> {
    match c {
        Some(s) => s.filter(|x: Option<Seq<char>>| x is Some).map_values(
            |x: Option<Seq<char>>| x->Some_0,
        ),
        None => Seq::empty(),
    }
}

/// The incident ids mentioned in `text`, in order.
pub open spec fn incident_ids_spec(text: Seq<char>) -> Seq<Seq<char>> {
    present(regex_group1(INCIDENT_PATTERN@, text))
}

/// The numbers of the pull requests referenced in `text`, in order
/// (references whose digits do not fit a `u64` are skipped).
pub open spec fn pr_refs_spec(text: Seq<char>) -> Seq<u64> {
    present(regex_group1(PR_PATTERN@, text)).filter(|d: Seq<char>| parse_u64_spec(d) is Some).map_values(
        |d: Seq<char>| parse_u64_spec(d)->Some_0,
    )
}

fn present_captures(pattern: &str, text: &str) -> (res: Vec<String>)
    ensures
        res@.map_values(|s: String| s@) == present(regex_group1(pattern@, text@)),
{
    let caps = capture_group1(pattern, text);
    let mut res: Vec<String> = Vec::new();
    match caps {
        None => {
            assert(res@.map_values(|s: String| s@) =~= Seq::<Seq<char>>::empty());
        },
        Some(v) => {
            let ghost cv = captures_view(Some(v))->Some_0;
            let ghost pred = |x: Option<Seq<char>>| x is Some;
            let ghost get = |x: Option<Seq<char>>| x->Some_0;
            let mut i: usize = 0;
            assert(cv.take(0).filter(pred) =~= Seq::<Option<Seq<char>>>::empty()) by {
                reveal(Seq::filter);
            }
            while i < v.len()
                invariant
                    i <= v.len(),
                    cv.len() == v.len(),
                    cv == captures_view(Some(v))->Some_0,
                    cv == regex_group1(pattern@, text@)->Some_0,
                    pred == (|x: Option<Seq<char>>| x is Some),
                    get == (|x: Option<Seq<char>>| x->Some_0),
                    res@.map_values(|s: String| s@) == cv.take(i as int).filter(pred).map_values(get),
                decreases v.len() - i,
            {
                let ghost before = res@;
                proof {
                    assert(cv.take(i + 1) =~= cv.take(i as int).push(cv[i as int]));
                    cv.take(i as int).lemma_filter_push(cv[i as int], pred);
                }
                match &v[i] {
                    Some(s) => {
                        res.push(s.clone());
                        assert(res@.map_values(|s: String| s@) =~= before.map_values(|s: String| s@).push(s@));
                    },
                    None => {},
                }
                i = i + 1;
            }
            assert(cv.take(v.len() as int) =~= cv);
        },
    }
    res
}

/// The incident ids mentioned in `text`.
pub fn incident_ids(text: &str) -> (res: Vec<String>)
    ensures
        res@.map_values(|s: String| s@) == incident_ids_spec(text@),
{
    present_captures(INCIDENT_PATTERN, text)
}

/// The numbers of the pull requests referenced in `text`.
pub fn pr_refs(text: &str) -> (res: Vec<u64>)
    ensures
        res@ == pr_refs_spec(text@),
{
    let caps = present_captures(PR_PATTERN, text);
    let ghost cs = caps@.map_values(|s: String| s@);
    let ghost pred = |d: Seq<char>| parse_u64_spec(d) is Some;
    let ghost get = |d: Seq<char>| parse_u64_spec(d)->Some_0;
    let mut res: Vec<u64> = Vec::new();
    let mut i: usize = 0;
    assert(cs.take(0).filter(pred) =~= Seq::<Seq<char>>::empty()) by {
        reveal(Seq::filter);
    }
    while i < caps.len()
        invariant
            i <= caps.len(),
            cs == caps@.map_values(|s: String| s@),
            cs.len() == caps.len(),
            pred == (|d: Seq<char>| parse_u64_spec(d) is Some),
            get == (|d: Seq<char>| parse_u64_spec(d)->Some_0),
            res@ == cs.take(i as int).filter(pred).map_values(get),
        decreases caps.len() - i,
    {
        proof {
            assert(cs.take(i + 1) =~= cs.take(i as int).push(cs[i as int]));
            cs.take(i as int).lemma_filter_push(cs[i as int], pred);
        }
        let ghost before = res@;
        match parse_u64(&chars_of(caps[i].as_str())) {
            Some(n) => {
                res.push(n);
                assert(res@ =~= before.push(n));
            },
            None => {},
        }
        i = i + 1;
    }
    assert(cs.take(caps.len() as int) =~= cs);
    res
}

} // verus!
