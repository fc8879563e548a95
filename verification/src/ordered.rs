//! Sorted sequences of distinct keys: the iteration order of std's
//! `BTreeSet` and `BTreeMap`, for `u64` keys and for string keys (which
//! `String`'s `Ord` compares by Unicode scalar value, the same order as
//! its UTF-8 bytes).

use vstd::prelude::*;
use crate::text::{chars_of, seq_eq};

verus! {

/// Lexicographic order on character sequences.
pub open spec fn lex_lt(a: Seq<char>, b: Seq<char>) -> bool
    decreases a.len(),
{
    if a.len() == 0 {
        b.len() > 0
    } else if b.len() == 0 {
        false
    } else if a[0] < b[0] {
        true
    } else if a[0] == b[0] {
        lex_lt(a.skip(1), b.skip(1))
    } else {
        false
    }
}

/// `lt` is a strict total order.
pub open spec fn strict_total<T>(lt: spec_fn(T, T) -> bool) -> bool {
    &&& forall|x: T| !#[trigger] lt(x, x)
    &&& forall|x: T, y: T, z: T| #[trigger] lt(x, y) && #[trigger] lt(y, z) ==> lt(x, z)
    &&& forall|x: T, y: T| x != y ==> #[trigger] lt(x, y) || #[trigger] lt(y, x)
}

/// `s` is strictly increasing under `lt`.
pub open spec fn sorted_by<T>(s: Seq<T>, lt: spec_fn(T, T) -> bool) -> bool {
    forall|i: int, j: int| 0 <= i < j < s.len() ==> lt(#[trigger] s[i], #[trigger] s[j])
}

pub open spec fn lex() -> spec_fn(Seq<char>, Seq<char>) -> bool {
    |a: Seq<char>, b: Seq<char>| lex_lt(a, b)
}

pub open spec fn num_lt() -> spec_fn(u64, u64) -> bool {
    |a: u64, b: u64| a < b
}

/// The elements of `s` in increasing lexicographic order.
pub open spec fn sorted_strings(s: Set<Seq<char>>) -> Seq<Seq<char>> {
    choose|q: Seq<Seq<char>>| sorted_by(q, lex()) && q.to_set() == s
}

/// The elements of `s` in increasing order.
pub open spec fn sorted_numbers(s: Set<u64>) -> Seq<u64> {
    choose|q: Seq<u64>| sorted_by(q, num_lt()) && q.to_set() == s
}

proof fn lemma_lex_irreflexive(a: Seq<char>)
    ensures
        !lex_lt(a, a),
    decreases a.len(),
{
    if a.len() > 0 {
        lemma_lex_irreflexive(a.skip(1));
    }
}

proof fn lemma_lex_transitive(a: Seq<char>, b: Seq<char>, c: Seq<char>)
    requires
        lex_lt(a, b),
        lex_lt(b, c),
    ensures
        lex_lt(a, c),
    decreases a.len(),
{
    if a.len() > 0 && b.len() > 0 && c.len() > 0 {
        if a[0] == b[0] && b[0] == c[0] {
            lemma_lex_transitive(a.skip(1), b.skip(1), c.skip(1));
        }
    }
}

proof fn lemma_lex_total(a: Seq<char>, b: Seq<char>)
    requires
        a != b,
    ensures
        lex_lt(a, b) || lex_lt(b, a),
    decreases a.len(),
{
    if a.len() > 0 && b.len() > 0 && a[0] == b[0] {
        if a.skip(1) == b.skip(1) {
            assert(a =~= seq![a[0]] + a.skip(1));
            assert(b =~= seq![b[0]] + b.skip(1));
        }
        lemma_lex_total(a.skip(1), b.skip(1));
    } else if a.len() == 0 && b.len() == 0 {
        assert(a =~= b);
    }
}

pub proof fn lemma_lex_strict_total()
    ensures
        strict_total(lex()),
{
    assert forall|x: Seq<char>| !#[trigger] lex()(x, x) by {
        lemma_lex_irreflexive(x);
    }
    assert forall|x: Seq<char>, y: Seq<char>, z: Seq<char>|
        #[trigger] lex()(x, y) && #[trigger] lex()(y, z) implies lex()(x, z) by {
        lemma_lex_transitive(x, y, z);
    }
    assert forall|x: Seq<char>, y: Seq<char>| x != y implies #[trigger] lex()(x, y)
        || #[trigger] lex()(y, x) by {
        lemma_lex_total(x, y);
    }
}

/// Two strictly increasing sequences with the same elements are equal.
pub proof fn lemma_sorted_unique<T>(a: Seq<T>, b: Seq<T>, lt: spec_fn(T, T) -> bool)
    requires
        strict_total(lt),
        sorted_by(a, lt),
        sorted_by(b, lt),
        a.to_set() == b.to_set(),
    ensures
        a == b,
    decreases a.len(),
{
    if a.len() == 0 {
        if b.len() > 0 {
            assert(b.to_set().contains(b[0]));
        }
        assert(a =~= b);
    } else if b.len() == 0 {
        assert(a.to_set().contains(a[0]));
    } else {
        assert(a.to_set().contains(b[0]));
        assert(b.to_set().contains(a[0]));
        let ia = choose|i: int| 0 <= i < a.len() && a[i] == b[0];
        let ib = choose|i: int| 0 <= i < b.len() && b[i] == a[0];
        if a[0] != b[0] {
            assert(ia > 0 && ib > 0);
            assert(lt(a[0], a[ia]));
            assert(lt(b[0], b[ib]));
            assert(lt(a[0], a[0]));
        }
        let ra = a.skip(1);
        let rb = b.skip(1);
        assert(sorted_by(ra, lt));
        assert(sorted_by(rb, lt));
        assert forall|x: T| ra.to_set().contains(x) implies rb.to_set().contains(x) by {
            let i = choose|i: int| 0 <= i < ra.len() && ra[i] == x;
            assert(a[i + 1] == x);
            assert(lt(a[0], x));
            assert(b.to_set().contains(x));
            let j = choose|j: int| 0 <= j < b.len() && b[j] == x;
            if j == 0 {
                assert(lt(x, x));
            }
            assert(rb[j - 1] == x);
        }
        assert forall|x: T| rb.to_set().contains(x) implies ra.to_set().contains(x) by {
            let i = choose|i: int| 0 <= i < rb.len() && rb[i] == x;
            assert(b[i + 1] == x);
            assert(lt(b[0], x));
            assert(a.to_set().contains(x));
            let j = choose|j: int| 0 <= j < a.len() && a[j] == x;
            if j == 0 {
                assert(lt(x, x));
            }
            assert(ra[j - 1] == x);
        }
        assert(ra.to_set() =~= rb.to_set());
        lemma_sorted_unique(ra, rb, lt);
        assert(a =~= seq![a[0]] + ra);
        assert(b =~= seq![b[0]] + rb);
    }
}

/// Views of a sequence of strings.
pub open spec fn string_views(v: Seq<String>) -> Seq<Seq<char>> {
    v.map_values(|s: String| s@)
}

/// Whether `a` sorts before `b`.
pub fn lex_less(a: &Vec<char>, b: &Vec<char>) -> (res: bool)
    ensures
        res == lex_lt(a@, b@),
{
    let mut i: usize = 0;
    assert(a@.skip(0) =~= a@);
    assert(b@.skip(0) =~= b@);
    while i < a.len() && i < b.len() && a[i] == b[i]
        invariant
            i <= a.len(),
            i <= b.len(),
            lex_lt(a@, b@) == lex_lt(a@.skip(i as int), b@.skip(i as int)),
        decreases a.len() - i,
    {
        assert(a@.skip(i as int).skip(1) =~= a@.skip(i + 1));
        assert(b@.skip(i as int).skip(1) =~= b@.skip(i + 1));
        i = i + 1;
    }
    if i == a.len() {
        i < b.len()
    } else if i == b.len() {
        false
    } else {
        a[i] < b[i]
    }
}

/// Inserts `x` into the strictly increasing `keys` unless it is there.
pub fn insert_string(keys: &mut Vec<String>, x: &str)
    requires
        sorted_by(string_views(old(keys)@), lex()),
    ensures
        sorted_by(string_views(final(keys)@), lex()),
        string_views(final(keys)@).to_set() == string_views(old(keys)@).to_set().insert(x@),
{
    proof {
        lemma_lex_strict_total();
    }
    let xv = chars_of(x);
    let ghost ks = string_views(keys@);
    let mut p: usize = 0;
    while p < keys.len() && lex_less(&chars_of(keys[p].as_str()), &xv)
        invariant
            p <= keys.len(),
            ks == string_views(keys@),
            xv@ == x@,
            forall|i: int| 0 <= i < p ==> lex_lt(#[trigger] ks[i], x@),
        decreases keys.len() - p,
    {
        p = p + 1;
    }
    if p < keys.len() && seq_eq(&chars_of(keys[p].as_str()), &xv) {
        assert(ks[p as int] == x@);
        assert(ks.to_set().insert(x@) =~= ks.to_set());
        return;
    }
    let mut s = String::new();
    crate::text::push_str(&mut s, x);
    assert(s@ =~= x@);
    keys.insert(p, s);
    let ghost nk = string_views(keys@);
    assert(nk =~= ks.insert(p as int, x@));
    assert forall|i: int, j: int| 0 <= i < j < nk.len() implies lex()(#[trigger] nk[i], #[trigger] nk[j]) by {
        if p < ks.len() {
            assert(ks[p as int] != x@);
            assert(!lex_lt(ks[p as int], x@));
            lemma_lex_total(ks[p as int], x@);
            assert(lex()(x@, ks[p as int]));
        }
        if i < p && j == p {
        } else if i < p && j > p {
            assert(lex()(ks[i], ks[j - 1]));
        } else if i == p {
            if j - 1 > p {
                assert(lex()(ks[p as int], ks[j - 1]));
            }
        } else if i > p {
            assert(lex()(ks[i - 1], ks[j - 1]));
        }
    }
    assert(nk.to_set() =~= ks.to_set().insert(x@)) by {
        assert forall|y: Seq<char>| nk.to_set().contains(y) implies ks.to_set().insert(x@).contains(y) by {
            let i = choose|i: int| 0 <= i < nk.len() && nk[i] == y;
            if i < p {
                assert(ks[i] == y);
            } else if i > p {
                assert(ks[i - 1] == y);
            }
        }
        assert forall|y: Seq<char>| ks.to_set().insert(x@).contains(y) implies nk.to_set().contains(y) by {
            if y == x@ {
                assert(nk[p as int] == y);
            } else {
                let i = choose|i: int| 0 <= i < ks.len() && ks[i] == y;
                if i < p {
                    assert(nk[i] == y);
                } else {
                    assert(nk[i + 1] == y);
                }
            }
        }
    }
}

/// A strictly increasing sequence of strings is the sorted enumeration of
/// its elements.
pub proof fn lemma_sorted_strings(q: Seq<Seq<char>>)
    requires
        sorted_by(q, lex()),
    ensures
        sorted_strings(q.to_set()) == q,
{
    lemma_lex_strict_total();
    let c = sorted_strings(q.to_set());
    assert(sorted_by(c, lex()) && c.to_set() == q.to_set());
    lemma_sorted_unique(c, q, lex());
}

/// A strictly increasing sequence of numbers is the sorted enumeration of
/// its elements.
pub proof fn lemma_sorted_numbers(q: Seq<u64>)
    requires
        sorted_by(q, num_lt()),
    ensures
        sorted_numbers(q.to_set()) == q,
{
    let c = sorted_numbers(q.to_set());
    assert(sorted_by(c, num_lt()) && c.to_set() == q.to_set());
    lemma_sorted_unique(c, q, num_lt());
}

/// Inserts every element of `xs` into the strictly increasing `keys`.
pub fn insert_all_strings(keys: &mut Vec<String>, xs: &Vec<String>)
    requires
        sorted_by(string_views(old(keys)@), lex()),
    ensures
        sorted_by(string_views(final(keys)@), lex()),
        string_views(final(keys)@).to_set() == string_views(old(keys)@).to_set().union(
            string_views(xs@).to_set(),
        ),
{
    let ghost start = string_views(keys@).to_set();
    let ghost xv = string_views(xs@);
    let mut i: usize = 0;
    while i < xs.len()
        invariant
            i <= xs.len(),
            xv == string_views(xs@),
            sorted_by(string_views(keys@), lex()),
            string_views(keys@).to_set() == start.union(xv.take(i as int).to_set()),
        decreases xs.len() - i,
    {
        insert_string(keys, xs[i].as_str());
        proof {
            assert(xv.take(i + 1) =~= xv.take(i as int).push(xv[i as int]));
            xv.take(i as int).lemma_push_to_set_commute(xv[i as int]);
            assert(string_views(keys@).to_set() =~= start.union(xv.take(i + 1).to_set()));
        }
        i = i + 1;
    }
    assert(xv.take(xs.len() as int) =~= xv);
}

/// Adds `x` to the set `s` (std `BTreeSet::insert`).
pub fn add_number(s: &mut std::collections::BTreeSet<u64>, x: u64)
    ensures
        final(s)@ == old(s)@.insert(x),
{
    broadcast use vstd::laws_cmp::group_laws_cmp;
    s.insert(x);
}

/// Adds every element of `xs` to the set `s`.
pub fn add_numbers(s: &mut std::collections::BTreeSet<u64>, xs: &Vec<u64>)
    ensures
        final(s)@ == old(s)@.union(xs@.to_set()),
{
    let ghost start = s@;
    let mut i: usize = 0;
    while i < xs.len()
        invariant
            i <= xs.len(),
            s@ == start.union(xs@.take(i as int).to_set()),
        decreases xs.len() - i,
    {
        add_number(s, xs[i]);
        proof {
            assert(xs@.take(i + 1) =~= xs@.take(i as int).push(xs[i as int]));
            xs@.take(i as int).lemma_push_to_set_commute(xs[i as int]);
            assert(s@ =~= start.union(xs@.take(i + 1).to_set()));
        }
        i = i + 1;
    }
    assert(xs@.take(xs.len() as int) =~= xs@);
}

/// The numbers of `s` in increasing order (std `BTreeSet` iteration).
pub fn set_numbers(s: &std::collections::BTreeSet<u64>) -> (v: Vec<u64>)
    ensures
        sorted_by(v@, num_lt()),
        v@.to_set() == s@,
{
    broadcast use vstd::std_specs::btree::group_btree_axioms;
    broadcast use vstd::laws_cmp::group_laws_cmp;
    let mut v: Vec<u64> = Vec::new();
    let iter = s.iter();
    proof {
        assert(vstd::laws_cmp::obeys_cmp::<u64>());
        assert(vstd::std_specs::btree::key_obeys_cmp_spec::<u64>());
        assert(iter == vstd::std_specs::btree::spec_btree_keys_iter(s));
    }
    let ghost keys = vstd::std_specs::iter::IteratorSpec::remaining(&iter);
    for x in it: iter
        invariant
            keys == vstd::std_specs::iter::IteratorSpec::remaining(&vstd::std_specs::btree::spec_btree_keys_iter(s)),
            it.seq() == keys,
            v@ == it.seq().take(it.index()).map_values(|r: &u64| *r),
    {
        v.push(*x);
    }
    proof {
        assert(v@ =~= keys.map_values(|r: &u64| *r));
        assert(keys.unref() =~= keys.map_values(|r: &u64| *r));
        assert(vstd::laws_cmp::obeys_cmp::<&u64>());
        assert(vstd::std_specs::btree::increasing_seq(keys));
        assert forall|i: int, j: int| 0 <= i < j < v@.len() implies num_lt()(
            #[trigger] v@[i],
            #[trigger] v@[j],
        ) by {
            assert(vstd::std_specs::cmp::OrdSpec::cmp_spec(&keys[i], &keys[j]) is Less);
        }
    }
    v
}

} // verus!
