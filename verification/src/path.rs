//! `/`-separated paths with the component semantics of std `Path` on
//! Unix: repeated separators and interior `.` components are ignored, a
//! leading `/` is the root and a leading `.` is kept.

use vstd::prelude::*;
use crate::config::join_path;
use crate::text::{chars_of, pieces, push_char, push_chars, seq_eq, split_str, string_of, views};

verus! {

/// A component that `Path::components` reports from the middle of a path.
pub open spec fn is_normal_part(p: Seq<char>) -> bool {
    p.len() > 0 && p != seq!['.']
}

/// The components of path `s`: the root `/` or a leading `.` first, then
/// every non-empty piece between separators other than `.`.
pub open spec fn components(s: Seq<char>) -> Seq<Seq<char>> {
    let parts = pieces(s, "/"@);
    let head: Seq<Seq<char>> = if s.len() > 0 && s[0] == '/' {
        seq![seq!['/']]
    } else if parts.len() > 0 && parts[0] == seq!['.'] {
        seq![seq!['.']]
    } else {
        Seq::empty()
    };
    head + parts.filter(|p: Seq<char>| is_normal_part(p))
}

/// Components joined by `/` (a first root component gives a leading `/`).
pub open spec fn join_parts(cs: Seq<Seq<char>>) -> Seq<char>
    decreases cs.len(),
{
    if cs.len() == 0 {
        Seq::empty()
    } else if cs.len() == 1 {
        cs[0]
    } else {
        join_parts(cs.drop_last()).push('/') + cs.last()
    }
}

/// The path text of a list of components.
pub open spec fn render(cs: Seq<Seq<char>>) -> Seq<char> {
    if cs.len() > 0 && cs[0] == seq!['/'] {
        seq!['/'] + join_parts(cs.skip(1))
    } else {
        join_parts(cs)
    }
}

/// std `Path::parent`: the path without its last component, or `None`
/// for the empty path and the root.
pub open spec fn parent_spec(s: Seq<char>) -> Option<Seq<char>> {
    let cs = components(s);
    if cs.len() == 0 || cs.last() == seq!['/'] {
        None
    } else {
        Some(render(cs.drop_last()))
    }
}

/// std `Path::starts_with`: `base`'s components begin `s`'s.
pub open spec fn path_starts_with(s: Seq<char>, base: Seq<char>) -> bool {
    components(base).is_prefix_of(components(s))
}

/// std `Path::strip_prefix`: the rest of `s` after the components of
/// `base`.
pub open spec fn strip_prefix_spec(s: Seq<char>, base: Seq<char>) -> Option<Seq<char>> {
    if path_starts_with(s, base) {
        Some(render(components(s).skip(components(base).len() as int)))
    } else {
        None
    }
}

/// The components of `s`.
pub fn path_components(s: &Vec<char>) -> (res: Vec<Vec<char>>)
    ensures
        views(res@) == components(s@),
{
    let parts = split_str(s, "/");
    let ghost pv = views(parts@);
    let mut res: Vec<Vec<char>> = Vec::new();
    let dot = vec!['.'];
    assert(dot@ =~= seq!['.']);
    if s.len() > 0 && s[0] == '/' {
        let r = vec!['/'];
        assert(r@ =~= seq!['/']);
        res.push(r);
        assert(views(res@) =~= seq![seq!['/']]);
    } else if parts.len() > 0 && seq_eq(&parts[0], &dot) {
        let d = vec!['.'];
        assert(d@ =~= seq!['.']);
        res.push(d);
        assert(views(res@) =~= seq![seq!['.']]);
    } else {
        assert(views(res@) =~= Seq::<Seq<char>>::empty());
    }
    assert(pv.len() == parts.len());
    proof {
        if parts.len() > 0 {
            assert(pv[0] == parts@[0]@);
        }
    }
    let ghost head = views(res@);
    assert(dot@ =~= seq!['.']);
    proof {
        let h: Seq<Seq<char>> = if s@.len() > 0 && s@[0] == '/' {
            seq![seq!['/']]
        } else if pv.len() > 0 && pv[0] == seq!['.'] {
            seq![seq!['.']]
        } else {
            Seq::empty()
        };
        assert(head =~= h);
    }
    let ghost pred = |p: Seq<char>| is_normal_part(p);
    let mut i: usize = 0;
    assert(pv.take(0).filter(pred) =~= Seq::<Seq<char>>::empty()) by {
        reveal(Seq::filter);
    }
    while i < parts.len()
        invariant
            i <= parts.len(),
            pv == views(parts@),
            pv.len() == parts.len(),
            pv == pieces(s@, "/"@),
            views(res@) == head + pv.take(i as int).filter(pred),
            pred == (|p: Seq<char>| is_normal_part(p)),
            dot@ == seq!['.'],
        decreases parts.len() - i,
    {
        let p = &parts[i];
        assert(pv[i as int] == p@);
        proof {
            assert(pv.take(i + 1) =~= pv.take(i as int).push(p@));
            pv.take(i as int).lemma_filter_push(p@, pred);
        }
        let ghost old_res = res@;
        if p.len() > 0 && !seq_eq(p, &dot) {
            res.push(crate::text::slice_of(p, 0, p.len()));
            assert(p@.subrange(0, p@.len() as int) =~= p@);
            assert(views(res@) =~= views(old_res).push(p@));
        }
        i = i + 1;
    }
    assert(pv.take(parts.len() as int) =~= pv);
    assert(views(res@) =~= components(s@));
    res
}

/// The text of components `cs[from..]` joined by `/`.
fn join_from(cs: &Vec<Vec<char>>, from: usize, to: usize) -> (res: String)
    requires
        from <= to <= cs.len(),
    ensures
        res@ == join_parts(views(cs@).subrange(from as int, to as int)),
{
    let mut out = String::new();
    let mut i = from;
    while i < to
        invariant
            from <= i <= to <= cs.len(),
            out@ == join_parts(views(cs@).subrange(from as int, i as int)),
        decreases to - i,
    {
        let ghost sub = views(cs@).subrange(from as int, i + 1);
        assert(sub.drop_last() =~= views(cs@).subrange(from as int, i as int));
        assert(sub.last() == cs@[i as int]@);
        if i > from {
            push_char(&mut out, '/');
        } else {
            assert(out@ =~= Seq::<char>::empty());
        }
        push_chars(&mut out, &cs[i]);
        i = i + 1;
    }
    out
}

/// The path text of components `cs[..to]`.
fn render_prefix(cs: &Vec<Vec<char>>, from: usize, to: usize) -> (res: String)
    requires
        from <= to <= cs.len(),
    ensures
        res@ == render(views(cs@).subrange(from as int, to as int)),
{
    let ghost sub = views(cs@).subrange(from as int, to as int);
    let root = vec!['/'];
    assert(root@ =~= seq!['/']);
    proof {
        if from < to {
            assert(sub[0] == cs@[from as int]@);
        }
    }
    if from < to && seq_eq(&cs[from], &root) {
        let mut out = String::new();
        push_char(&mut out, '/');
        let rest = join_from(cs, from + 1, to);
        push_chars(&mut out, &crate::text::chars_of(rest.as_str()));
        assert(sub.skip(1) =~= views(cs@).subrange(from + 1, to as int));
        assert(out@ =~= seq!['/'] + join_parts(sub.skip(1)));
        out
    } else {
        join_from(cs, from, to)
    }
}

/// std `Path::parent` on path text.
pub fn parent(s: &str) -> (res: Option<String>)
    ensures
        match res {
            Some(p) => parent_spec(s@) == Some(p@),
            None => parent_spec(s@) is None,
        },
{
    let cs = path_components(&chars_of(s));
    let root = vec!['/'];
    assert(root@ =~= seq!['/']);
    proof {
        if cs.len() > 0 {
            assert(views(cs@).last() == cs@[cs.len() - 1]@);
        }
    }
    if cs.len() == 0 || seq_eq(&cs[cs.len() - 1], &root) {
        return None;
    }
    let r = render_prefix(&cs, 0, cs.len() - 1);
    assert(views(cs@).subrange(0, cs.len() - 1) =~= views(cs@).drop_last());
    Some(r)
}

/// Whether the components of `base` begin those of `s`.
fn components_prefix(s: &Vec<Vec<char>>, base: &Vec<Vec<char>>) -> (res: bool)
    ensures
        res == views(base@).is_prefix_of(views(s@)),
{
    if base.len() > s.len() {
        return false;
    }
    let mut i: usize = 0;
    while i < base.len()
        invariant
            i <= base.len() <= s.len(),
            forall|j: int| 0 <= j < i ==> views(base@)[j] == views(s@)[j],
        decreases base.len() - i,
    {
        if !seq_eq(&base[i], &s[i]) {
            assert(views(base@)[i as int] != views(s@)[i as int]);
            return false;
        }
        i = i + 1;
    }
    true
}

/// std `Path::starts_with` on path text.
pub fn starts_with(s: &str, base: &str) -> (res: bool)
    ensures
        res == path_starts_with(s@, base@),
{
    let a = path_components(&chars_of(s));
    let b = path_components(&chars_of(base));
    components_prefix(&a, &b)
}

/// std `Path::strip_prefix` on path text.
pub fn strip_prefix(s: &str, base: &str) -> (res: Option<String>)
    ensures
        match res {
            Some(r) => strip_prefix_spec(s@, base@) == Some(r@),
            None => strip_prefix_spec(s@, base@) is None,
        },
{
    let a = path_components(&chars_of(s));
    let b = path_components(&chars_of(base));
    if !components_prefix(&a, &b) {
        return None;
    }
    let r = render_prefix(&a, b.len(), a.len());
    assert(views(a@).subrange(b.len() as int, a.len() as int) =~= views(a@).skip(b.len() as int));
    Some(r)
}

/// std `PathBuf::join` on path text.
pub fn join(base: &str, p: &str) -> (res: String)
    ensures
        res@ == join_path(base@, p@),
{
    crate::config::join(base, p)
}


/// std `Path::file_name`: the last component when it is a name (not the
/// root, `.` or `..`).
pub open spec fn file_name_spec(s: Seq<char>) -> Option<Seq<char>> {
    let cs = components(s);
    if cs.len() > 0 && cs.last() != seq!['/'] && cs.last() != seq!['.'] && cs.last() != seq!['.', '.'] {
        Some(cs.last())
    } else {
        None
    }
}

/// std `Path::file_name` on path text.
pub fn file_name(s: &str) -> (res: Option<String>)
    ensures
        match res {
            Some(n) => file_name_spec(s@) == Some(n@),
            None => file_name_spec(s@) is None,
        },
{
    let cs = path_components(&chars_of(s));
    if cs.len() == 0 {
        return None;
    }
    let last = &cs[cs.len() - 1];
    assert(views(cs@).last() == last@);
    let root = vec!['/'];
    let dot = vec!['.'];
    let dotdot = vec!['.', '.'];
    assert(root@ =~= seq!['/']);
    assert(dot@ =~= seq!['.']);
    assert(dotdot@ =~= seq!['.', '.']);
    if seq_eq(last, &root) || seq_eq(last, &dot) || seq_eq(last, &dotdot) {
        return None;
    }
    Some(string_of(last))
}

} // verus!
