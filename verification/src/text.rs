//! Text primitives shared by the parsers and renderers.
//!
//! Strings are handled as sequences of Unicode scalar values: a `String`
//! or `&str` is viewed as its `Seq<char>`, and every index below counts
//! characters.

use vstd::prelude::*;

verus! {

/// Appends one character to a `String` (std `String::push`).
/// Trusted: the string afterwards holds its old characters followed by `c`.
#[verifier::external_body]
pub(crate) fn push_char(s: &mut String, c: char)
    ensures
        final(s)@ == old(s)@.push(c),
{
    s.push(c);
}

/// The characters of `s`, in order.
pub fn chars_of(s: &str) -> (res: Vec<char>)
    ensures
        res@ == s@,
{
    let mut res: Vec<char> = Vec::new();
    for c in it: s.chars()
        invariant
            res@ == it.seq().take(it.index() as int),
    {
        res.push(c);
    }
    res
}

/// A `String` holding exactly the characters of `v`.
pub fn string_of(v: &Vec<char>) -> (res: String)
    ensures
        res@ == v@,
{
    let mut res = String::new();
    let mut i: usize = 0;
    while i < v.len()
        invariant
            i <= v.len(),
            res@ == v@.take(i as int),
        decreases v.len() - i,
    {
        push_char(&mut res, v[i]);
        i = i + 1;
    }
    res
}

/// A `String` holding the characters of `v` from `start` (inclusive) to
/// `end` (exclusive).
pub fn string_of_range(v: &Vec<char>, start: usize, end: usize) -> (res: String)
    requires
        start <= end <= v.len(),
    ensures
        res@ == v@.subrange(start as int, end as int),
{
    let mut res = String::new();
    let mut i: usize = start;
    while i < end
        invariant
            start <= i <= end <= v.len(),
            res@ == v@.subrange(start as int, i as int),
        decreases end - i,
    {
        push_char(&mut res, v[i]);
        i = i + 1;
    }
    res
}

/// The characters of `v` from `start` (inclusive) to `end` (exclusive).
pub fn slice_of(v: &Vec<char>, start: usize, end: usize) -> (res: Vec<char>)
    requires
        start <= end <= v.len(),
    ensures
        res@ == v@.subrange(start as int, end as int),
{
    let mut res: Vec<char> = Vec::new();
    let mut i: usize = start;
    while i < end
        invariant
            start <= i <= end <= v.len(),
            res@ == v@.subrange(start as int, i as int),
        decreases end - i,
    {
        res.push(v[i]);
        i = i + 1;
    }
    res
}

/// Appends the characters of `v` to `s`.
pub fn push_chars(s: &mut String, v: &Vec<char>)
    ensures
        final(s)@ == old(s)@ + v@,
{
    let mut i: usize = 0;
    while i < v.len()
        invariant
            i <= v.len(),
            s@ == old(s)@ + v@.take(i as int),
        decreases v.len() - i,
    {
        push_char(s, v[i]);
        i = i + 1;
        assert(v@.take(i as int) == v@.take(i - 1 as int).push(v@[i - 1]));
    }
    assert(v@.take(v.len() as int) == v@);
}

/// Appends the characters of `t` to `s`.
pub fn push_str(s: &mut String, t: &str)
    ensures
        final(s)@ == old(s)@ + t@,
{
    let v = chars_of(t);
    push_chars(s, &v);
}

/// Whether the two character sequences are equal.
pub fn seq_eq(a: &Vec<char>, b: &Vec<char>) -> (res: bool)
    ensures
        res == (a@ == b@),
{
    if a.len() != b.len() {
        return false;
    }
    let mut i: usize = 0;
    while i < a.len()
        invariant
            i <= a.len() == b.len(),
            a@.take(i as int) == b@.take(i as int),
        decreases a.len() - i,
    {
        if a[i] != b[i] {
            assert(a@[i as int] != b@[i as int]);
            return false;
        }
        i = i + 1;
        assert(a@.take(i as int) == a@.take(i - 1 as int).push(a@[i - 1]));
        assert(b@.take(i as int) == b@.take(i - 1 as int).push(b@[i - 1]));
    }
    assert(a@.take(a.len() as int) == a@);
    assert(b@.take(b.len() as int) == b@);
    true
}

/// Whether `p` is a prefix of `v`.
pub fn has_prefix(v: &Vec<char>, p: &Vec<char>) -> (res: bool)
    ensures
        res == p@.is_prefix_of(v@),
{
    if p.len() > v.len() {
        return false;
    }
    let mut i: usize = 0;
    while i < p.len()
        invariant
            i <= p.len() <= v.len(),
            forall|j: int| 0 <= j < i ==> v@[j] == p@[j],
        decreases p.len() - i,
    {
        if v[i] != p[i] {
            return false;
        }
        i = i + 1;
    }
    true
}

/// Whether `p` is a suffix of `v`.
pub fn has_suffix(v: &Vec<char>, p: &Vec<char>) -> (res: bool)
    ensures
        res == p@.is_suffix_of(v@),
{
    if p.len() > v.len() {
        return false;
    }
    let off = v.len() - p.len();
    let mut i: usize = 0;
    while i < p.len()
        invariant
            i <= p.len() <= v.len(),
            off == v.len() - p.len(),
            forall|j: int| 0 <= j < i ==> v@[off + j] == p@[j],
        decreases p.len() - i,
    {
        if v[off + i] != p[i] {
            return false;
        }
        i = i + 1;
    }
    true
}

/// Whether `s` starts with the literal `p`.
pub fn starts_with_str(s: &Vec<char>, p: &str) -> (res: bool)
    ensures
        res == p@.is_prefix_of(s@),
{
    let pv = chars_of(p);
    has_prefix(s, &pv)
}

/// Index of the first occurrence of `p` in `s` at or after `i`.
pub open spec fn find_from(s: Seq<char>, p: Seq<char>, i: int) -> Option<int>
    decreases s.len() - i,
{
    if i < 0 || i + p.len() > s.len() {
        None
    } else if s.subrange(i, i + p.len()) =~= p {
        Some(i)
    } else if i >= s.len() {
        None
    } else {
        find_from(s, p, i + 1)
    }
}

/// Index of the first occurrence of `p` in `s` (std `str::find`, counted
/// in characters).
pub open spec fn find_seq(s: Seq<char>, p: Seq<char>) -> Option<int> {
    find_from(s, p, 0)
}

pub proof fn lemma_find_from_bounds(s: Seq<char>, p: Seq<char>, i: int)
    ensures
        find_from(s, p, i) matches Some(k) ==> i <= k && k + p.len() <= s.len()
            && s.subrange(k, k + p.len()) == p,
        find_from(s, p, i) matches Some(k) ==> forall|j: int|
            i <= j < k ==> !(#[trigger] s.subrange(j, j + p.len()) =~= p),
        find_from(s, p, i) is None ==> forall|j: int|
            0 <= i <= j && j + p.len() <= s.len() ==> !(#[trigger] s.subrange(j, j + p.len()) =~= p),
    decreases s.len() - i,
{
    if i < 0 || i + p.len() > s.len() {
    } else if s.subrange(i, i + p.len()) =~= p {
    } else if i >= s.len() {
    } else {
        lemma_find_from_bounds(s, p, i + 1);
    }
}

/// An occurrence of `p` at `k` with none before it (from `i`) is the one
/// `find_from` reports.
pub proof fn lemma_find_first_at(s: Seq<char>, p: Seq<char>, i: int, k: int)
    requires
        0 <= i <= k,
        k + p.len() <= s.len(),
        s.subrange(k, k + p.len()) =~= p,
        forall|j: int| i <= j < k ==> !(#[trigger] s.subrange(j, j + p.len()) =~= p),
    ensures
        find_from(s, p, i) == Some(k),
    decreases k - i,
{
    if i < k {
        assert(!(s.subrange(i, i + p.len()) =~= p));
        lemma_find_first_at(s, p, i + 1, k);
    }
}

/// Index of the first occurrence of `p` in `s`.
pub fn find(s: &Vec<char>, p: &Vec<char>) -> (res: Option<usize>)
    ensures
        match res {
            Some(k) => find_seq(s@, p@) == Some(k as int),
            None => find_seq(s@, p@) is None,
        },
{
    let mut i: usize = 0;
    if p.len() > s.len() {
        return None;
    }
    let last = s.len() - p.len();
    while i <= last
        invariant
            p.len() <= s.len(),
            last == s.len() - p.len(),
            i <= last + 1,
            find_from(s@, p@, 0) == find_from(s@, p@, i as int),
        decreases last + 1 - i,
    {
        let mut j: usize = 0;
        let mut matched = true;
        while j < p.len()
            invariant
                i + p.len() <= s.len(),
                j <= p.len(),
                matched ==> forall|k: int| 0 <= k < j ==> s@[i + k] == p@[k],
                !matched ==> !(s@.subrange(i as int, i + p.len()) =~= p@),
            decreases p.len() - j,
        {
            if s[i + j] != p[j] {
                matched = false;
                assert(s@.subrange(i as int, i + p.len())[j as int] != p@[j as int]);
            }
            j = j + 1;
        }
        if matched {
            assert(s@.subrange(i as int, i + p.len()) =~= p@);
            return Some(i);
        }
        if i >= s.len() {
            return None;
        }
        i = i + 1;
    }
    None
}

/// Index of the first occurrence of the literal `p` in `s`.
pub fn find_str(s: &Vec<char>, p: &str) -> (res: Option<usize>)
    ensures
        match res {
            Some(k) => find_seq(s@, p@) == Some(k as int),
            None => find_seq(s@, p@) is None,
        },
{
    let pv = chars_of(p);
    find(s, &pv)
}


/// Unicode `White_Space` (what std's `char::is_whitespace` tests).
pub open spec fn is_ws(c: char) -> bool {
    ||| ('\u{9}' <= c && c <= '\u{d}')
    ||| c == ' '
    ||| c == '\u{85}'
    ||| c == '\u{a0}'
    ||| c == '\u{1680}'
    ||| ('\u{2000}' <= c && c <= '\u{200a}')
    ||| c == '\u{2028}'
    ||| c == '\u{2029}'
    ||| c == '\u{202f}'
    ||| c == '\u{205f}'
    ||| c == '\u{3000}'
}

/// Whether `c` is Unicode whitespace.
pub fn is_whitespace(c: char) -> (res: bool)
    ensures
        res == is_ws(c),
{
    ('\u{9}' <= c && c <= '\u{d}') || c == ' ' || c == '\u{85}' || c == '\u{a0}' || c
        == '\u{1680}' || ('\u{2000}' <= c && c <= '\u{200a}') || c == '\u{2028}' || c
        == '\u{2029}' || c == '\u{202f}' || c == '\u{205f}' || c == '\u{3000}'
}

/// First index at or after `i` that does not hold whitespace.
pub open spec fn skip_ws(s: Seq<char>, i: int) -> int
    decreases s.len() - i,
{
    if 0 <= i < s.len() && is_ws(s[i]) {
        skip_ws(s, i + 1)
    } else {
        i
    }
}

/// First index at or after `i` that holds whitespace.
pub open spec fn skip_word(s: Seq<char>, i: int) -> int
    decreases s.len() - i,
{
    if 0 <= i < s.len() && !is_ws(s[i]) {
        skip_word(s, i + 1)
    } else {
        i
    }
}

/// Walking back from `j`, the first index whose predecessor is not
/// whitespace.
pub open spec fn rskip_ws(s: Seq<char>, j: int) -> int
    decreases j,
{
    if 0 < j <= s.len() && is_ws(s[j - 1]) {
        rskip_ws(s, j - 1)
    } else {
        j
    }
}

/// First index at or after `i` holding `c`, or `s.len()` if none.
pub open spec fn find_char_from(s: Seq<char>, c: char, i: int) -> int
    decreases s.len() - i,
{
    if 0 <= i < s.len() && s[i] != c {
        find_char_from(s, c, i + 1)
    } else if i < 0 {
        0
    } else {
        i
    }
}

/// First index at or after `i` not holding `c` (skips a run of `c`).
pub open spec fn skip_char(s: Seq<char>, c: char, i: int) -> int
    decreases s.len() - i,
{
    if 0 <= i < s.len() && s[i] == c {
        skip_char(s, c, i + 1)
    } else {
        i
    }
}

pub proof fn lemma_skip_ws(s: Seq<char>, i: int)
    requires
        0 <= i,
    ensures
        i <= skip_ws(s, i),
        i <= s.len() ==> skip_ws(s, i) <= s.len(),
        skip_ws(s, i) < s.len() ==> !is_ws(s[skip_ws(s, i)]),
        forall|k: int| i <= k < skip_ws(s, i) ==> is_ws(#[trigger] s[k]),
    decreases s.len() - i,
{
    if 0 <= i < s.len() && is_ws(s[i]) {
        lemma_skip_ws(s, i + 1);
    }
}

pub proof fn lemma_skip_word(s: Seq<char>, i: int)
    requires
        0 <= i,
    ensures
        i <= skip_word(s, i),
        i <= s.len() ==> skip_word(s, i) <= s.len(),
        skip_word(s, i) < s.len() ==> is_ws(s[skip_word(s, i)]),
        forall|k: int| i <= k < skip_word(s, i) ==> !is_ws(#[trigger] s[k]),
    decreases s.len() - i,
{
    if 0 <= i < s.len() && !is_ws(s[i]) {
        lemma_skip_word(s, i + 1);
    }
}

pub proof fn lemma_rskip_ws(s: Seq<char>, j: int)
    requires
        0 <= j <= s.len(),
    ensures
        0 <= rskip_ws(s, j) <= j,
        rskip_ws(s, j) > 0 ==> !is_ws(s[rskip_ws(s, j) - 1]),
        forall|k: int| rskip_ws(s, j) <= k < j ==> is_ws(#[trigger] s[k]),
    decreases j,
{
    if 0 < j <= s.len() && is_ws(s[j - 1]) {
        lemma_rskip_ws(s, j - 1);
    }
}

pub proof fn lemma_find_char_from(s: Seq<char>, c: char, i: int)
    requires
        0 <= i,
    ensures
        i <= s.len() ==> i <= find_char_from(s, c, i) <= s.len(),
        i > s.len() ==> find_char_from(s, c, i) == i,
        find_char_from(s, c, i) < s.len() ==> s[find_char_from(s, c, i)] == c,
        forall|k: int| i <= k < find_char_from(s, c, i) ==> #[trigger] s[k] != c,
    decreases s.len() - i,
{
    if 0 <= i < s.len() && s[i] != c {
        lemma_find_char_from(s, c, i + 1);
    }
}

pub proof fn lemma_skip_char(s: Seq<char>, c: char, i: int)
    requires
        0 <= i,
    ensures
        i <= skip_char(s, c, i),
        i <= s.len() ==> skip_char(s, c, i) <= s.len(),
        skip_char(s, c, i) < s.len() ==> s[skip_char(s, c, i)] != c,
        forall|k: int| i <= k < skip_char(s, c, i) ==> #[trigger] s[k] == c,
    decreases s.len() - i,
{
    if 0 <= i < s.len() && s[i] == c {
        lemma_skip_char(s, c, i + 1);
    }
}

/// `s` with leading and trailing whitespace removed (std `str::trim`).
pub open spec fn trim_seq(s: Seq<char>) -> Seq<char> {
    let a = skip_ws(s, 0);
    let b = rskip_ws(s, s.len() as int);
    if b <= a {
        Seq::empty()
    } else {
        s.subrange(a, b)
    }
}

/// The whitespace-separated words of `s` from index `i` on
/// (std `str::split_whitespace`).
pub open spec fn words_from(s: Seq<char>, i: int) -> Seq<Seq<char>>
    decreases s.len() - i,
{
    if i < 0 {
        Seq::empty()
    } else {
        let a = skip_ws(s, i);
        if a >= s.len() {
            Seq::empty()
        } else {
            let b = skip_word(s, a);
            proof {
                lemma_skip_ws(s, i);
                lemma_skip_word(s, a);
            }
            seq![s.subrange(a, b)] + words_from(s, b)
        }
    }
}

/// The whitespace-separated words of `s`.
pub open spec fn words(s: Seq<char>) -> Seq<Seq<char>> {
    words_from(s, 0)
}

/// The lines of `s` from index `i` on (std `str::lines`): split at `\n`,
/// a `\r` right before a `\n` is dropped, and a final line ending adds no
/// empty line.
pub open spec fn lines_from(s: Seq<char>, i: int) -> Seq<Seq<char>>
    decreases s.len() - i,
{
    if i < 0 || i >= s.len() {
        Seq::empty()
    } else {
        let e = find_char_from(s, '\n', i);
        proof {
            lemma_find_char_from(s, '\n', i);
        }
        let piece = s.subrange(i, e);
        let line = if e < s.len() && piece.len() > 0 && piece.last() == '\r' {
            piece.drop_last()
        } else {
            piece
        };
        if e < s.len() {
            seq![line] + lines_from(s, e + 1)
        } else {
            seq![line]
        }
    }
}

/// The lines of `s`.
pub open spec fn lines(s: Seq<char>) -> Seq<Seq<char>> {
    lines_from(s, 0)
}

/// Views of a sequence of character vectors.
pub open spec fn views(v: Seq<Vec<char>>) -> Seq<Seq<char>> {
    v.map_values(|x: Vec<char>| x@)
}

/// `s` without leading and trailing whitespace.
pub fn trim(s: &Vec<char>) -> (res: Vec<char>)
    ensures
        res@ == trim_seq(s@),
{
    let mut a: usize = 0;
    while a < s.len() && is_whitespace(s[a])
        invariant
            a <= s.len(),
            skip_ws(s@, 0) == skip_ws(s@, a as int),
        decreases s.len() - a,
    {
        a = a + 1;
    }
    let mut b: usize = s.len();
    while b > 0 && is_whitespace(s[b - 1])
        invariant
            b <= s.len(),
            rskip_ws(s@, s.len() as int) == rskip_ws(s@, b as int),
        decreases b,
    {
        b = b - 1;
    }
    if b <= a {
        Vec::new()
    } else {
        slice_of(s, a, b)
    }
}

/// Index of the first `c` at or after `i`, or `s.len()`.
pub fn find_char(s: &Vec<char>, c: char, i: usize) -> (res: usize)
    requires
        i <= s.len(),
    ensures
        res == find_char_from(s@, c, i as int),
{
    let mut k = i;
    while k < s.len() && s[k] != c
        invariant
            i <= k <= s.len(),
            find_char_from(s@, c, i as int) == find_char_from(s@, c, k as int),
        decreases s.len() - k,
    {
        k = k + 1;
    }
    k
}

/// The whitespace-separated words of `s`.
pub fn split_whitespace(s: &Vec<char>) -> (res: Vec<Vec<char>>)
    ensures
        views(res@) == words(s@),
{
    let mut res: Vec<Vec<char>> = Vec::new();
    let mut i: usize = 0;
    while i < s.len()
        invariant
            i <= s.len(),
            views(res@) + words_from(s@, i as int) == words(s@),
        decreases s.len() - i,
    {
        let mut a = i;
        while a < s.len() && is_whitespace(s[a])
            invariant
                i <= a <= s.len(),
                skip_ws(s@, i as int) == skip_ws(s@, a as int),
            decreases s.len() - a,
        {
            a = a + 1;
        }
        if a >= s.len() {
            assert(words_from(s@, i as int) =~= Seq::<Seq<char>>::empty());
            i = a;
        } else {
            let mut b = a;
            while b < s.len() && !is_whitespace(s[b])
                invariant
                    a <= b <= s.len(),
                    skip_word(s@, a as int) == skip_word(s@, b as int),
                decreases s.len() - b,
            {
                b = b + 1;
            }
            let w = slice_of(s, a, b);
            let ghost old_res = res@;
            res.push(w);
            assert(views(res@) =~= views(old_res).push(w@));
            assert(views(res@) + words_from(s@, b as int) =~= views(old_res) + words_from(
                s@,
                i as int,
            ));
            proof {
                lemma_skip_word(s@, a as int);
            }
            i = b;
        }
    }
    assert(words_from(s@, i as int) =~= Seq::<Seq<char>>::empty());
    assert(views(res@) + Seq::<Seq<char>>::empty() =~= views(res@));
    res
}

/// The lines of `s` (std `str::lines`).
pub fn split_lines(s: &Vec<char>) -> (res: Vec<Vec<char>>)
    ensures
        views(res@) == lines(s@),
{
    let mut res: Vec<Vec<char>> = Vec::new();
    let mut i: usize = 0;
    while i < s.len()
        invariant
            i <= s.len(),
            views(res@) + lines_from(s@, i as int) == lines(s@),
        decreases s.len() - i,
    {
        let e = find_char(s, '\n', i);
        proof {
            lemma_find_char_from(s@, '\n', i as int);
        }
        let end = if e < s.len() && e > i && s[e - 1] == '\r' {
            e - 1
        } else {
            e
        };
        let line = slice_of(s, i, end);
        let ghost old_res = res@;
        res.push(line);
        assert(views(res@) =~= views(old_res).push(line@));
        if e < s.len() {
            assert(line@ == lines_from(s@, i as int)[0]);
            assert(views(res@) + lines_from(s@, e + 1) =~= views(old_res) + lines_from(
                s@,
                i as int,
            ));
            i = e + 1;
        } else {
            assert(lines_from(s@, i as int) =~= seq![line@]);
            assert(lines_from(s@, e as int) =~= Seq::<Seq<char>>::empty());
            assert(views(res@) + lines_from(s@, e as int) =~= views(old_res) + lines_from(
                s@,
                i as int,
            ));
            i = e;
        }
    }
    assert(lines_from(s@, i as int) =~= Seq::<Seq<char>>::empty());
    assert(views(res@) + Seq::<Seq<char>>::empty() =~= views(res@));
    res
}


/// `v` without the literal prefix `p`, if `v` starts with it.
pub fn strip_prefix_str(v: &Vec<char>, p: &str) -> (res: Option<Vec<char>>)
    ensures
        match res {
            Some(r) => p@.is_prefix_of(v@) && r@ == v@.skip(p@.len() as int),
            None => !p@.is_prefix_of(v@),
        },
{
    let pv = chars_of(p);
    if has_prefix(v, &pv) {
        Some(slice_of(v, pv.len(), v.len()))
    } else {
        None
    }
}

/// `v` without its first character.
pub fn drop_first_char(v: &Vec<char>) -> (res: Vec<char>)
    requires
        v.len() > 0,
    ensures
        res@ == v@.skip(1),
{
    slice_of(v, 1, v.len())
}


/// The pieces of `s` from index `i` on, split at each occurrence of `sep`
/// found left to right (std `str::split` with a string pattern).
pub open spec fn pieces_from(s: Seq<char>, sep: Seq<char>, i: int) -> Seq<Seq<char>>
    decreases s.len() - i,
{
    if sep.len() == 0 || i < 0 || i > s.len() {
        seq![s.skip(i)]
    } else {
        match find_from(s, sep, i) {
            None => seq![s.skip(i)],
            Some(k) => {
                proof {
                    lemma_find_from_bounds(s, sep, i);
                }
                seq![s.subrange(i, k)] + pieces_from(s, sep, k + sep.len())
            },
        }
    }
}

/// The pieces of `s` split at `sep`.
pub open spec fn pieces(s: Seq<char>, sep: Seq<char>) -> Seq<Seq<char>> {
    pieces_from(s, sep, 0)
}

/// Splitting gives at least one piece.
pub proof fn lemma_pieces_nonempty(s: Seq<char>, sep: Seq<char>)
    ensures
        pieces(s, sep).len() >= 1,
{
    if !(sep.len() == 0) {
        match find_from(s, sep, 0) {
            None => {},
            Some(k) => {
                lemma_find_from_bounds(s, sep, 0);
            },
        }
    }
}

/// Index of the first occurrence of `p` in `s` at or after `i`.
pub fn find_at(s: &Vec<char>, p: &Vec<char>, i: usize) -> (res: Option<usize>)
    requires
        i <= s.len(),
    ensures
        match res {
            Some(k) => find_from(s@, p@, i as int) == Some(k as int),
            None => find_from(s@, p@, i as int) is None,
        },
{
    if p.len() > s.len() {
        return None;
    }
    let last = s.len() - p.len();
    let mut k: usize = i;
    while k <= last
        invariant
            p.len() <= s.len(),
            last == s.len() - p.len(),
            i <= k,
            k <= last + 1 || k == i,
            find_from(s@, p@, i as int) == find_from(s@, p@, k as int),
        decreases last + 1 - k,
    {
        let mut j: usize = 0;
        let mut matched = true;
        while j < p.len()
            invariant
                k + p.len() <= s.len(),
                j <= p.len(),
                matched ==> forall|m: int| 0 <= m < j ==> s@[k + m] == p@[m],
                !matched ==> !(s@.subrange(k as int, k + p.len()) =~= p@),
            decreases p.len() - j,
        {
            if s[k + j] != p[j] {
                matched = false;
                assert(s@.subrange(k as int, k + p.len())[j as int] != p@[j as int]);
            }
            j = j + 1;
        }
        if matched {
            assert(s@.subrange(k as int, k + p.len()) =~= p@);
            return Some(k);
        }
        if k >= s.len() {
            return None;
        }
        k = k + 1;
    }
    None
}

/// The pieces of `s` split at the literal `sep`.
pub fn split_str(s: &Vec<char>, sep: &str) -> (res: Vec<Vec<char>>)
    ensures
        views(res@) == pieces(s@, sep@),
{
    let sv = chars_of(sep);
    let mut res: Vec<Vec<char>> = Vec::new();
    if sv.len() == 0 {
        res.push(slice_of(s, 0, s.len()));
        assert(views(res@) =~= pieces(s@, sep@));
        return res;
    }
    let mut i: usize = 0;
    let mut done = false;
    while !done
        invariant
            sv@ == sep@,
            sv.len() > 0,
            i <= s.len(),
            !done ==> views(res@) + pieces_from(s@, sv@, i as int) == pieces(s@, sep@),
            done ==> views(res@) == pieces(s@, sep@),
        decreases s.len() + 1 - i + (if done { 0int } else { 1int }),
    {
        let ghost old_res = res@;
        match find_at(s, &sv, i) {
            None => {
                res.push(slice_of(s, i, s.len()));
                assert(views(res@) =~= views(old_res).push(s@.skip(i as int)));
                assert(views(res@) =~= views(old_res) + pieces_from(s@, sv@, i as int));
                done = true;
            },
            Some(k) => {
                proof {
                    lemma_find_from_bounds(s@, sv@, i as int);
                }
                res.push(slice_of(s, i, k));
                assert(views(res@) =~= views(old_res).push(s@.subrange(i as int, k as int)));
                assert(views(res@) + pieces_from(s@, sv@, k + sv.len()) =~= views(old_res)
                    + pieces_from(s@, sv@, i as int));
                i = k + sv.len();
            },
        }
    }
    res
}

/// `s` with every `from` replaced by `to`.
pub open spec fn replace_char_spec(s: Seq<char>, from: char, to: char) -> Seq<char> {
    s.map_values(|c: char| if c == from { to } else { c })
}

/// `s` with every `from` replaced by `to` (std `str::replace` with a
/// one-character pattern and replacement).
pub fn replace_char(s: &Vec<char>, from: char, to: char) -> (res: Vec<char>)
    ensures
        res@ == replace_char_spec(s@, from, to),
{
    let mut res: Vec<char> = Vec::new();
    let mut i: usize = 0;
    while i < s.len()
        invariant
            i <= s.len(),
            res@ == replace_char_spec(s@.take(i as int), from, to),
        decreases s.len() - i,
    {
        let c = if s[i] == from {
            to
        } else {
            s[i]
        };
        res.push(c);
        i = i + 1;
        assert(replace_char_spec(s@.take(i as int), from, to) =~= replace_char_spec(
            s@.take(i - 1),
            from,
            to,
        ).push(c));
    }
    assert(s@.take(s.len() as int) =~= s@);
    res
}

/// The first `n` characters of `s`, or all of them if it is shorter.
pub open spec fn take_chars(s: Seq<char>, n: int) -> Seq<char> {
    if n < s.len() {
        s.take(n)
    } else {
        s
    }
}

/// `s` cut to `limit` characters, with `…` appended when it was cut.
pub open spec fn ellipsize_spec(s: Seq<char>, limit: int) -> Seq<char> {
    if s.len() <= limit {
        s
    } else {
        s.take(limit).push('\u{2026}')
    }
}

/// `s` cut to `limit` characters, with `…` appended when it was cut.
pub fn ellipsize(s: &Vec<char>, limit: usize) -> (res: String)
    ensures
        res@ == ellipsize_spec(s@, limit as int),
{
    if s.len() <= limit {
        string_of(s)
    } else {
        let mut r = string_of_range(s, 0, limit);
        push_char(&mut r, '\u{2026}');
        r
    }
}

/// std `str::to_lowercase` (Unicode lowercase mapping).
pub uninterp spec fn lowercase_spec(s: Seq<char>) -> Seq<char>;

/// Trusted: std `str::to_lowercase`, which depends on `s` alone; the
/// result is named `lowercase_spec(s)`.
#[verifier::external_body]
pub(crate) fn lowercase(s: &str) -> (res: String)
    ensures
        res@ == lowercase_spec(s@),
{
    s.to_lowercase()
}

/// `n` copies of `c`.
pub open spec fn repeat(c: char, n: nat) -> Seq<char> {
    Seq::new(n, |_i: int| c)
}

/// Appends `n` copies of `c`.
pub fn push_repeat(s: &mut String, c: char, n: usize)
    ensures
        final(s)@ == old(s)@ + repeat(c, n as nat),
{
    let ghost start = s@;
    let mut i: usize = 0;
    while i < n
        invariant
            i <= n,
            s@ == start + repeat(c, i as nat),
        decreases n - i,
    {
        push_char(s, c);
        assert(repeat(c, (i + 1) as nat) =~= repeat(c, i as nat).push(c));
        i = i + 1;
    }
}

/// std `char::to_uppercase` (Unicode uppercase mapping, one to three
/// characters).
pub uninterp spec fn uppercase_spec(c: char) -> Seq<char>;

/// Trusted: std `char::to_uppercase`, collected into a string; it depends
/// on `c` alone and its result is named `uppercase_spec(c)`.
#[verifier::external_body]
pub(crate) fn uppercase(c: char) -> (res: String)
    ensures
        res@ == uppercase_spec(c),
{
    c.to_uppercase().collect::<String>()
}

/// `s` with its first character upper-cased.
pub open spec fn capitalize_spec(s: Seq<char>) -> Seq<char> {
    if s.len() == 0 {
        Seq::empty()
    } else {
        uppercase_spec(s[0]) + s.skip(1)
    }
}

pub fn capitalize(s: &str) -> (res: String)
    ensures
        res@ == capitalize_spec(s@),
{
    let v = chars_of(s);
    if v.len() == 0 {
        return String::new();
    }
    let mut out = uppercase(v[0]);
    let rest = slice_of(&v, 1, v.len());
    push_chars(&mut out, &rest);
    out
}

/// `s` kept to at most `n` characters: when longer, its first `n - 1`
/// characters and `…`.
pub open spec fn trim_to_spec(s: Seq<char>, n: int) -> Seq<char> {
    if s.len() <= n {
        s
    } else {
        s.take(if n >= 1 {
            n - 1
        } else {
            0
        }).push('\u{2026}')
    }
}

pub fn trim_to(s: &str, n: usize) -> (res: String)
    ensures
        res@ == trim_to_spec(s@, n as int),
{
    let v = chars_of(s);
    if v.len() <= n {
        return string_of(&v);
    }
    let keep = if n >= 1 {
        n - 1
    } else {
        0
    };
    let mut r = string_of_range(&v, 0, keep);
    push_char(&mut r, '\u{2026}');
    r
}

/// `s` padded with spaces on the right to `width` characters (std's
/// `{:<width}` on a string).
pub open spec fn pad_right(s: Seq<char>, width: int) -> Seq<char> {
    if s.len() >= width {
        s
    } else {
        s + repeat(' ', (width - s.len()) as nat)
    }
}

pub fn pad_to(s: &str, width: usize) -> (res: String)
    ensures
        res@ == pad_right(s@, width as int),
{
    let n = chars_of(s).len();
    let mut r = String::new();
    push_str(&mut r, s);
    if n < width {
        push_repeat(&mut r, ' ', width - n);
    }
    assert(r@ =~= pad_right(s@, width as int));
    r
}

/// `s` without its leading whitespace.
pub open spec fn trim_start_seq(s: Seq<char>) -> Seq<char> {
    s.skip(skip_ws(s, 0))
}

} // verus!
