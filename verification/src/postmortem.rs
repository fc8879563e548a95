//! Postmortem documents: YAML frontmatter split from the Markdown body,
//! lookup by incident id, and the module filter the memoir uses.

use vstd::prelude::*;
use vstd::string::StrSliceExecFns;
use crate::text::{
    chars_of, ellipsize, ellipsize_spec, find_seq, find_str, lemma_find_first_at, lemma_find_from_bounds,
    skip_char, slice_of, string_of,
};
use crate::path::{path_starts_with, starts_with};
use crate::{Error, Result};

verus! {

#[derive(Debug, Clone)]
pub struct CodeRef {
    pub file: String,
    pub lines: [usize; 2],
}

#[derive(Debug, Clone, Default)]
pub struct PostmortemFrontmatter {
    pub id: String,
    pub date: String,
    pub services: Vec<String>,
    pub code_refs: Vec<CodeRef>,
    pub linked_prs: Vec<String>,
    pub linked_tests: Vec<String>,
    pub title: String,
}

#[derive(Debug, Clone)]
pub struct Postmortem {
    pub fm: PostmortemFrontmatter,
    pub body: String,
    /// The frontmatter's code refs, resolved against HEAD.
    pub current_code_refs: Vec<CodeRef>,
    pub source_path: String,
}

/// The loaded postmortem corpus, in load order.
pub struct PostmortemIndex {
    pub docs: Vec<Postmortem>,
}

/// Index of the last of the first `n` documents whose id is `id` (a later
/// document with the same id replaces an earlier one).
pub open spec fn last_with_id(docs: Seq<Postmortem>, id: Seq<char>, n: int) -> Option<int>
    decreases n,
{
    if n <= 0 {
        None
    } else if docs[n - 1].fm.id@ == id {
        Some(n - 1)
    } else {
        last_with_id(docs, id, n - 1)
    }
}

/// Whether one of the resolved code refs of `d` names a path at or under
/// the directory `module_dir`, compared by whole path components (as std
/// `Path::starts_with` does): under `payments` lie `payments` and
/// `payments/x.py`, but not `payments_v2/x.py`.
pub open spec fn mentions_under(d: Postmortem, module_dir: Seq<char>) -> bool {
    exists|k: int|
        0 <= k < d.current_code_refs@.len() && path_starts_with(
            #[trigger] d.current_code_refs@[k].file@,
            module_dir,
        )
}

/// The postmortems with a resolved code ref at or under `module_dir`, in
/// load order.
pub open spec fn module_docs(docs: Seq<Postmortem>, module_dir: Seq<char>) -> Seq<Postmortem> {
    docs.filter(|d: Postmortem| mentions_under(d, module_dir))
}

/// Whether `d` has a resolved code ref at or under `module_dir`.
fn mentions(d: &Postmortem, module_dir: &str) -> (res: bool)
    ensures
        res == mentions_under(*d, module_dir@),
{
    let mut k: usize = 0;
    while k < d.current_code_refs.len()
        invariant
            k <= d.current_code_refs@.len(),
            forall|j: int|
                0 <= j < k ==> !path_starts_with(#[trigger] d.current_code_refs@[j].file@, module_dir@),
        decreases d.current_code_refs.len() - k,
    {
        if starts_with(d.current_code_refs[k].file.as_str(), module_dir) {
            return true;
        }
        k = k + 1;
    }
    false
}

impl PostmortemIndex {
    pub fn new(docs: Vec<Postmortem>) -> (res: Self)
        ensures
            res.docs@ == docs@,
    {
        PostmortemIndex { docs }
    }

    /// Every loaded postmortem.
    pub fn all(&self) -> (res: &[Postmortem])
        ensures
            res@ == self.docs@,
    {
        self.docs.as_slice()
    }

    /// The postmortem with incident id `id`; with several, the one loaded
    /// last.
    pub fn by_id(&self, id: &str) -> (res: Option<&Postmortem>)
        ensures
            match last_with_id(self.docs@, id@, self.docs@.len() as int) {
                Some(i) => res == Some(&self.docs@[i]),
                None => res is None,
            },
    {
        let mut i = self.docs.len();
        while i > 0
            invariant
                i <= self.docs@.len(),
                last_with_id(self.docs@, id@, self.docs@.len() as int) == last_with_id(
                    self.docs@,
                    id@,
                    i as int,
                ),
            decreases i,
        {
            i = i - 1;
            let d = &self.docs[i];
            let a = chars_of(d.fm.id.as_str());
            let b = chars_of(id);
            if crate::text::seq_eq(&a, &b) {
                return Some(d);
            }
        }
        None
    }

    /// All postmortems that mention a path at or under `module_dir` in
    /// their resolved code refs, in load order.
    pub fn for_module(&self, module_dir: &str) -> (res: Vec<&Postmortem>)
        ensures
            res@.map_values(|r: &Postmortem| *r) == module_docs(self.docs@, module_dir@),
    {
        let mut res: Vec<&Postmortem> = Vec::new();
        let mut i: usize = 0;
        while i < self.docs.len()
            invariant
                i <= self.docs@.len(),
                res@.map_values(|r: &Postmortem| *r) == module_docs(self.docs@.take(i as int), module_dir@),
            decreases self.docs.len() - i,
        {
            let d = &self.docs[i];
            let ghost pred = |x: Postmortem| mentions_under(x, module_dir@);
            let ghost old_res = res@;
            proof {
                assert(self.docs@.take(i + 1) =~= self.docs@.take(i as int).push(*d));
                self.docs@.take(i as int).lemma_filter_push(*d, pred);
            }
            if mentions(d, module_dir) {
                res.push(d);
                assert(res@.map_values(|r: &Postmortem| *r) =~= old_res.map_values(
                    |r: &Postmortem| *r,
                ).push(*d));
            }
            i = i + 1;
        }
        assert(self.docs@.take(self.docs.len() as int) =~= self.docs@);
        res
    }
}

/// A short excerpt of a postmortem body: its first 240 characters, with
/// `…` when there is more.
pub fn snippet(body: &str) -> (res: String)
    ensures
        res@ == ellipsize_spec(body@, 240),
{
    ellipsize(&chars_of(body), 240)
}

/// What `split_frontmatter` returns on `s`: leading byte-order marks are
/// skipped; a document that then starts with `---\n` must close the block
/// with `\n---`, and yields the text in between and the rest with its
/// leading newlines dropped; any other document has no frontmatter and is
/// returned whole. The error carries its message.
pub open spec fn split_frontmatter_spec(s: Seq<char>) -> core::result::Result<
    (Seq<char>, Seq<char>),
    Seq<char>,
> {
    let t = s.skip(skip_char(s, '\u{feff}', 0));
    if "---\n"@.is_prefix_of(t) {
        let rest = t.skip("---\n"@.len() as int);
        match find_seq(rest, "\n---"@) {
            Some(end) => {
                let after = rest.skip(end + "\n---"@.len());
                Ok((rest.take(end), after.skip(skip_char(after, '\n', 0))))
            },
            None => Err("frontmatter opened with --- but never closed"@),
        }
    } else {
        Ok((Seq::empty(), s))
    }
}

/// Wrapping frontmatter text and a body in `---` markers and splitting the
/// result again gives both back unchanged, provided the frontmatter holds
/// no line that starts with `---` and the body does not start with a
/// newline.
pub proof fn frontmatter_round_trip(fm: Seq<char>, body: Seq<char>)
    requires
        find_seq(fm, "\n---"@) is None,
        body.len() == 0 || body[0] != '\n',
    ensures
        split_frontmatter_spec("---\n"@ + fm + "\n---\n"@ + body) == core::result::Result::<
            (Seq<char>, Seq<char>),
            Seq<char>,
        >::Ok((fm, body)),
{
    reveal_strlit("---\n");
    reveal_strlit("\n---");
    reveal_strlit("\n---\n");
    let open: Seq<char> = "---\n"@;
    let close: Seq<char> = "\n---"@;
    assert(open =~= seq!['-', '-', '-', '\n']);
    assert(close =~= seq!['\n', '-', '-', '-']);
    assert("\n---\n"@ =~= seq!['\n', '-', '-', '-', '\n']);
    let doc = open + fm + "\n---\n"@ + body;
    assert(doc[0] == '-');
    assert(skip_char(doc, '\u{feff}', 0) == 0);
    assert(doc.skip(0) =~= doc);
    assert(open.is_prefix_of(doc));
    let rest = doc.skip(4);
    assert(rest =~= fm + seq!['\n', '-', '-', '-', '\n'] + body);
    let n = fm.len() as int;
    assert(rest.subrange(n, n + 4) =~= close);
    assert forall|j: int| 0 <= j < n implies !(#[trigger] rest.subrange(j, j + 4) =~= close) by {
        if j + 4 <= n {
            assert(rest.subrange(j, j + 4) =~= fm.subrange(j, j + 4));
            lemma_find_from_bounds(fm, close, 0);
        } else {
            let k = n - j;
            assert(1 <= k <= 3);
            assert(rest.subrange(j, j + 4)[k] == '\n');
            assert(close[k] == '-');
        }
    }
    lemma_find_first_at(rest, close, 0, n);
    let after = rest.skip(n + 4);
    assert(after =~= seq!['\n'] + body);
    assert(after.len() == 1 || after[1] != '\n');
    assert(skip_char(after, '\n', 1) == 1);
    assert(skip_char(after, '\n', 0) == 1);
    assert(after.skip(1) =~= body);
    assert(rest.take(n) =~= fm);
}

/// Splits a document into its YAML frontmatter and its body.
pub fn split_frontmatter(input: &str) -> (res: Result<(String, &str)>)
    ensures
        match res {
            Ok((fm, body)) => split_frontmatter_spec(input@) == core::result::Result::<
                (Seq<char>, Seq<char>),
                Seq<char>,
            >::Ok((fm@, body@)),
            Err(e) => split_frontmatter_spec(input@) matches Err(m) && e matches Error::InvalidMemoir(
                x,
            ) && x@ == m,
        },
{
    let s = chars_of(input);
    let n = input.unicode_len();
    let mut a: usize = 0;
    while a < s.len() && s[a] == '\u{feff}'
        invariant
            a <= s.len(),
            skip_char(s@, '\u{feff}', 0) == skip_char(s@, '\u{feff}', a as int),
        decreases s.len() - a,
    {
        a = a + 1;
    }
    let t = slice_of(&s, a, s.len());
    let open = chars_of("---\n");
    let close = chars_of("\n---");
    let mut is_open = open.len() <= t.len();
    let mut k: usize = 0;
    while is_open && k < open.len()
        invariant
            open@ == "---\n"@,
            k <= open.len(),
            is_open ==> open.len() <= t.len(),
            is_open ==> forall|j: int| 0 <= j < k ==> t@[j] == open@[j],
            !is_open ==> !"---\n"@.is_prefix_of(t@),
        decreases open.len() - k,
    {
        if t[k] != open[k] {
            is_open = false;
        }
        k = k + 1;
    }
    if is_open {
        let rest = slice_of(&t, open.len(), t.len());
        match find_str(&rest, "\n---") {
            Some(end) => {
                proof {
                    lemma_find_from_bounds(rest@, "\n---"@, 0);
                }
                let fm = string_of(&slice_of(&rest, 0, end));
                let start_after = end + close.len();
                let after = slice_of(&rest, start_after, rest.len());
                let mut b: usize = 0;
                while b < after.len() && after[b] == '\n'
                    invariant
                        b <= after.len(),
                        skip_char(after@, '\n', 0) == skip_char(after@, '\n', b as int),
                    decreases after.len() - b,
                {
                    b = b + 1;
                }
                let body_start = a + open.len() + start_after + b;
                assert(after@.skip(b as int) =~= s@.skip(body_start as int));
                let body = input.substring_char(body_start, n);
                Ok((fm, body))
            },
            None => {
                let mut m = String::new();
                crate::text::push_str(&mut m, "frontmatter opened with --- but never closed");
                assert(m@ =~= "frontmatter opened with --- but never closed"@);
                Err(Error::InvalidMemoir(m))
            },
        }
    } else {
        assert(s@.subrange(0, n as int) =~= s@);
        Ok((String::new(), input))
    }
}

} // verus!
