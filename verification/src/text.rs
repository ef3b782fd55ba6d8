//! Character-level text utilities with the semantics of the corresponding
//! `str` operations: Unicode whitespace, trimming, splitting, line breaking.
//!
//! Text is handled as a vector of `char`s; sub-strings are `[lo, hi)` index
//! ranges into it, related to the specification by `Seq::subrange`.

use vstd::prelude::*;

verus! {

/// The Unicode `White_Space` property, as used by `char::is_whitespace`.
pub open spec fn is_ws(c: char) -> bool {
    ||| c == '\t' || c == '\n' || c == '\u{0B}' || c == '\u{0C}' || c == '\r' || c == ' '
    ||| c == '\u{85}' || c == '\u{A0}' || c == '\u{1680}'
    ||| ('\u{2000}' <= c && c <= '\u{200A}')
    ||| c == '\u{2028}' || c == '\u{2029}' || c == '\u{202F}' || c == '\u{205F}'
    ||| c == '\u{3000}'
}

/// Executable counterpart of [`is_ws`].
pub fn is_whitespace(c: char) -> (r: bool)
    ensures
        r == is_ws(c),
{
    c == '\t' || c == '\n' || c == '\u{0B}' || c == '\u{0C}' || c == '\r' || c == ' '
        || c == '\u{85}' || c == '\u{A0}' || c == '\u{1680}' || ('\u{2000}' <= c && c
        <= '\u{200A}') || c == '\u{2028}' || c == '\u{2029}' || c == '\u{202F}' || c
        == '\u{205F}' || c == '\u{3000}'
}

/// `s` with leading whitespace removed (`str::trim_start`).
pub open spec fn trim_start(s: Seq<char>) -> Seq<char>
    decreases s.len(),
{
    if s.len() > 0 && is_ws(s[0]) {
        trim_start(s.drop_first())
    } else {
        s
    }
}

/// `s` with trailing whitespace removed (`str::trim_end`).
pub open spec fn trim_end(s: Seq<char>) -> Seq<char>
    decreases s.len(),
{
    if s.len() > 0 && is_ws(s.last()) {
        trim_end(s.drop_last())
    } else {
        s
    }
}

/// `s` with leading and trailing whitespace removed (`str::trim`).
pub open spec fn trim(s: Seq<char>) -> Seq<char> {
    trim_end(trim_start(s))
}

/// Every occurrence of the no-break space U+00A0 replaced by a plain space.
pub open spec fn replace_nbsp(s: Seq<char>) -> Seq<char> {
    s.map_values(|c: char| if c == '\u{A0}' { ' ' } else { c })
}

/// `s` with every occurrence of `d` removed (`str::replace(d, "")`).
pub open spec fn remove_char(s: Seq<char>, d: char) -> Seq<char>
    decreases s.len(),
{
    if s.len() == 0 {
        s
    } else if s.last() == d {
        remove_char(s.drop_last(), d)
    } else {
        remove_char(s.drop_last(), d).push(s.last())
    }
}

/// The pieces of `s` between occurrences of `d` (`str::split(d)`): always at
/// least one piece, empty pieces kept.
pub open spec fn split_char(s: Seq<char>, d: char) -> Seq<Seq<char>>
    decreases s.len(),
{
    if s.len() == 0 {
        seq![Seq::<char>::empty()]
    } else {
        let p = split_char(s.drop_last(), d);
        if s.last() == d {
            p.push(Seq::<char>::empty())
        } else {
            p.update(p.len() - 1, p.last().push(s.last()))
        }
    }
}

/// The maximal runs of non-whitespace characters of `s`
/// (`str::split_whitespace`).
pub open spec fn ws_tokens(s: Seq<char>) -> Seq<Seq<char>>
    decreases s.len(),
{
    if s.len() == 0 {
        Seq::<Seq<char>>::empty()
    } else {
        let t = ws_tokens(s.drop_last());
        if is_ws(s.last()) {
            t
        } else if s.len() >= 2 && !is_ws(s[s.len() - 2]) {
            t.update(t.len() - 1, t.last().push(s.last()))
        } else {
            t.push(seq![s.last()])
        }
    }
}

/// One trailing carriage return removed, if present.
pub open spec fn strip_cr(s: Seq<char>) -> Seq<char> {
    if s.len() > 0 && s.last() == '\r' {
        s.drop_last()
    } else {
        s
    }
}

/// The lines of `s` (`str::lines`): pieces between `\n`, a final empty piece
/// dropped, and a `\r` before each `\n` removed.
pub open spec fn lines(s: Seq<char>) -> Seq<Seq<char>> {
    let p = split_char(s, '\n');
    let n: int = if p.last().len() == 0 { p.len() - 1 } else { p.len() as int };
    Seq::new(n as nat, |i: int| if i < p.len() - 1 { strip_cr(p[i]) } else { p[i] })
}

/// Joins `ts` with `sep` between consecutive items (`[T]::join`).
pub open spec fn join(ts: Seq<Seq<char>>, sep: Seq<char>) -> Seq<char>
    decreases ts.len(),
{
    if ts.len() == 0 {
        Seq::<char>::empty()
    } else if ts.len() == 1 {
        ts[0]
    } else {
        join(ts.drop_last(), sep) + sep + ts.last()
    }
}

pub proof fn lemma_split_char_nonempty(s: Seq<char>, d: char)
    ensures
        split_char(s, d).len() >= 1,
    decreases s.len(),
{
    if s.len() > 0 {
        lemma_split_char_nonempty(s.drop_last(), d);
    }
}

/// The characters of `s`, in order.
pub fn chars_of(s: &str) -> (v: Vec<char>)
    ensures
        v@ == s@,
{
    let mut v: Vec<char> = Vec::new();
    broadcast use vstd::string::group_string_axioms;

    for c in it: s.chars()
        invariant
            it.seq() == s@,
            v@ == s@.take(it.index() as int),
    {
        v.push(c);
    }
    v
}


/// Bounds `[a, b)` of the trimmed sub-range of `v[lo..hi]`.
pub fn trim_range(v: &Vec<char>, lo: usize, hi: usize) -> (r: (usize, usize))
    requires
        lo <= hi <= v@.len(),
    ensures
        lo <= r.0 <= r.1 <= hi,
        v@.subrange(r.0 as int, r.1 as int) == trim(v@.subrange(lo as int, hi as int)),
{
    let mut a = lo;
    while a < hi && is_whitespace(v[a])
        invariant
            lo <= a <= hi <= v@.len(),
            trim_start(v@.subrange(lo as int, hi as int)) == trim_start(
                v@.subrange(a as int, hi as int),
            ),
        decreases hi - a,
    {
        assert(v@.subrange(a as int, hi as int).drop_first() =~= v@.subrange(
            a + 1,
            hi as int,
        ));
        a = a + 1;
    }
    assert(trim_start(v@.subrange(a as int, hi as int)) == v@.subrange(a as int, hi as int));
    let mut b = hi;
    while b > a && is_whitespace(v[b - 1])
        invariant
            lo <= a <= b <= hi <= v@.len(),
            trim(v@.subrange(lo as int, hi as int)) == trim_end(v@.subrange(a as int, b as int)),
        decreases b - a,
    {
        assert(v@.subrange(a as int, b as int).drop_last() =~= v@.subrange(
            a as int,
            b - 1,
        ));
        b = b - 1;
    }
    (a, b)
}

/// Ranges of the pieces of `v[lo..hi]` between occurrences of `d`.
pub fn split_ranges(v: &Vec<char>, lo: usize, hi: usize, d: char) -> (r: Vec<(usize, usize)>)
    requires
        lo <= hi <= v@.len(),
    ensures
        r@.len() == split_char(v@.subrange(lo as int, hi as int), d).len(),
        forall|k: int|
            0 <= k < r@.len() ==> lo <= (#[trigger] r@[k]).0 <= r@[k].1 <= hi && v@.subrange(
                r@[k].0 as int,
                r@[k].1 as int,
            ) == split_char(v@.subrange(lo as int, hi as int), d)[k],
{
    let mut r: Vec<(usize, usize)> = Vec::new();
    let mut start = lo;
    let mut i = lo;
    assert(v@.subrange(lo as int, lo as int) =~= Seq::<char>::empty());
    while i < hi
        invariant
            lo <= start <= i <= hi <= v@.len(),
            split_char(v@.subrange(lo as int, i as int), d).len() == r@.len() + 1,
            split_char(v@.subrange(lo as int, i as int), d).last() == v@.subrange(
                start as int,
                i as int,
            ),
            forall|k: int|
                0 <= k < r@.len() ==> lo <= (#[trigger] r@[k]).0 <= r@[k].1 <= i
                    && v@.subrange(r@[k].0 as int, r@[k].1 as int) == split_char(
                    v@.subrange(lo as int, i as int),
                    d,
                )[k],
        decreases hi - i,
    {
        let ghost old_r = r@;
        let ghost s1 = v@.subrange(lo as int, i + 1);
        assert(s1.drop_last() =~= v@.subrange(lo as int, i as int));
        assert(s1.last() == v@[i as int]);
        if v[i] == d {
            r.push((start, i));
            start = i + 1;
            assert(v@.subrange(start as int, (i + 1) as int) =~= Seq::<char>::empty());
        } else {
            assert(v@.subrange(start as int, (i + 1) as int) =~= v@.subrange(
                start as int,
                i as int,
            ).push(v@[i as int]));
        }
        i = i + 1;
    }
    r.push((start, i));
    r
}


/// Ranges of the maximal non-whitespace runs of `v[lo..hi]`.
pub fn ws_token_ranges(v: &Vec<char>, lo: usize, hi: usize) -> (r: Vec<(usize, usize)>)
    requires
        lo <= hi <= v@.len(),
    ensures
        r@.len() == ws_tokens(v@.subrange(lo as int, hi as int)).len(),
        forall|k: int|
            0 <= k < r@.len() ==> lo <= (#[trigger] r@[k]).0 <= r@[k].1 <= hi && v@.subrange(
                r@[k].0 as int,
                r@[k].1 as int,
            ) == ws_tokens(v@.subrange(lo as int, hi as int))[k],
{
    let mut r: Vec<(usize, usize)> = Vec::new();
    let mut in_tok = false;
    let mut start = lo;
    let mut i = lo;
    assert(v@.subrange(lo as int, lo as int) =~= Seq::<char>::empty());
    while i < hi
        invariant
            lo <= start <= i <= hi <= v@.len(),
            in_tok ==> start < i && !is_ws(v@[i - 1]),
            !in_tok ==> (i > lo ==> is_ws(v@[i - 1])),
            ws_tokens(v@.subrange(lo as int, i as int)).len() == r@.len() + (if in_tok {
                1int
            } else {
                0int
            }),
            in_tok ==> ws_tokens(v@.subrange(lo as int, i as int)).last() == v@.subrange(
                start as int,
                i as int,
            ),
            forall|k: int|
                0 <= k < r@.len() ==> lo <= (#[trigger] r@[k]).0 <= r@[k].1 <= i
                    && v@.subrange(r@[k].0 as int, r@[k].1 as int) == ws_tokens(
                    v@.subrange(lo as int, i as int),
                )[k],
        decreases hi - i,
    {
        let ghost s1 = v@.subrange(lo as int, i + 1);
        assert(s1.drop_last() =~= v@.subrange(lo as int, i as int));
        assert(s1.last() == v@[i as int]);
        if i > lo {
            assert(s1[s1.len() - 2] == v@[i - 1]);
        }
        if is_whitespace(v[i]) {
            if in_tok {
                r.push((start, i));
                in_tok = false;
            }
        } else {
            if in_tok {
                assert(v@.subrange(start as int, (i + 1) as int) =~= v@.subrange(
                    start as int,
                    i as int,
                ).push(v@[i as int]));
            } else {
                start = i;
                in_tok = true;
                assert(v@.subrange(start as int, (i + 1) as int) =~= seq![v@[i as int]]);
            }
        }
        i = i + 1;
    }
    if in_tok {
        r.push((start, i));
    }
    r
}

/// Ranges of the lines of `v` (see [`lines`]).
pub fn line_ranges(v: &Vec<char>) -> (r: Vec<(usize, usize)>)
    ensures
        r@.len() == lines(v@).len(),
        forall|k: int|
            0 <= k < r@.len() ==> (#[trigger] r@[k]).0 <= r@[k].1 <= v@.len() && v@.subrange(
                r@[k].0 as int,
                r@[k].1 as int,
            ) == lines(v@)[k],
{
    let pieces = split_ranges(v, 0, v.len(), '\n');
    let ghost p = split_char(v@, '\n');
    assert(v@.subrange(0, v@.len() as int) =~= v@);
    proof {
        lemma_split_char_nonempty(v@, '\n');
    }
    let n = pieces.len();
    let last = pieces[n - 1];
    let count = if last.0 == last.1 { n - 1 } else { n };
    assert(p.last().len() == 0 <==> last.0 == last.1);
    let mut r: Vec<(usize, usize)> = Vec::new();
    let mut k: usize = 0;
    while k < count
        invariant
            p == split_char(v@, '\n'),
            pieces@.len() == n == p.len() >= 1,
            count <= n,
            count == lines(v@).len(),
            0 <= k <= count,
            r@.len() == k,
            forall|j: int|
                0 <= j < pieces@.len() ==> (#[trigger] pieces@[j]).0 <= pieces@[j].1 <= v@.len()
                    && v@.subrange(pieces@[j].0 as int, pieces@[j].1 as int) == p[j],
            forall|j: int|
                0 <= j < k ==> (#[trigger] r@[j]).0 <= r@[j].1 <= v@.len() && v@.subrange(
                    r@[j].0 as int,
                    r@[j].1 as int,
                ) == lines(v@)[j],
        decreases count - k,
    {
        let (a, b) = pieces[k];
        let ghost pk = p[k as int];
        assert(lines(v@)[k as int] == if (k as int) < p.len() - 1 {
            strip_cr(pk)
        } else {
            pk
        });
        assert(pk == v@.subrange(a as int, b as int));
        if k + 1 < n && a < b && v[b - 1] == '\r' {
            assert(pk.last() == v@[b - 1]);
            assert(v@.subrange(a as int, b - 1) =~= pk.drop_last());
            r.push((a, b - 1));
        } else {
            if k + 1 < n && a < b {
                assert(pk.last() == v@[b - 1]);
            }
            r.push((a, b));
        }
        k = k + 1;
    }
    r
}

/// Copy of `v[lo..hi]` with every `d` removed.
pub fn remove_char_range(v: &Vec<char>, lo: usize, hi: usize, d: char) -> (r: Vec<char>)
    requires
        lo <= hi <= v@.len(),
    ensures
        r@ == remove_char(v@.subrange(lo as int, hi as int), d),
{
    let mut r: Vec<char> = Vec::new();
    let mut i = lo;
    assert(v@.subrange(lo as int, lo as int) =~= Seq::<char>::empty());
    while i < hi
        invariant
            lo <= i <= hi <= v@.len(),
            r@ == remove_char(v@.subrange(lo as int, i as int), d),
        decreases hi - i,
    {
        let ghost s1 = v@.subrange(lo as int, i + 1);
        assert(s1.drop_last() =~= v@.subrange(lo as int, i as int));
        if v[i] != d {
            r.push(v[i]);
        }
        i = i + 1;
    }
    r
}

/// Copy of `v` with every no-break space replaced by a plain space.
pub fn replace_nbsp_vec(v: &Vec<char>) -> (r: Vec<char>)
    ensures
        r@ == replace_nbsp(v@),
{
    let mut r: Vec<char> = Vec::new();
    let mut i: usize = 0;
    while i < v.len()
        invariant
            0 <= i <= v@.len(),
            r@ == replace_nbsp(v@.take(i as int)),
        decreases v@.len() - i,
    {
        let c = v[i];
        r.push(if c == '\u{A0}' { ' ' } else { c });
        assert(replace_nbsp(v@.take(i + 1)) =~= replace_nbsp(v@.take(i as int)).push(
            if c == '\u{A0}' { ' ' } else { c },
        ));
        i = i + 1;
    }
    assert(v@.take(v@.len() as int) =~= v@);
    r
}

/// Appends one character to a string (`String::push`).
#[verifier::external_body]
pub(crate) fn push_char(s: &mut String, c: char)
    ensures
        final(s)@ == old(s)@.push(c),
{
    s.push(c);
}

/// A string holding the characters `v[lo..hi]`.
pub fn string_of_range(v: &Vec<char>, lo: usize, hi: usize) -> (r: String)
    requires
        lo <= hi <= v@.len(),
    ensures
        r@ == v@.subrange(lo as int, hi as int),
{
    let mut r = String::new();
    let mut i = lo;
    while i < hi
        invariant
            lo <= i <= hi <= v@.len(),
            r@ == v@.subrange(lo as int, i as int),
        decreases hi - i,
    {
        push_char(&mut r, v[i]);
        assert(v@.subrange(lo as int, i + 1) =~= v@.subrange(lo as int, i as int).push(
            v@[i as int],
        ));
        i = i + 1;
    }
    r
}


/// Copy of `v[lo..hi]` with every no-break space replaced by a plain space.
pub fn replace_nbsp_range(v: &Vec<char>, lo: usize, hi: usize) -> (r: Vec<char>)
    requires
        lo <= hi <= v@.len(),
    ensures
        r@ == replace_nbsp(v@.subrange(lo as int, hi as int)),
{
    let mut r: Vec<char> = Vec::new();
    let mut i = lo;
    while i < hi
        invariant
            lo <= i <= hi <= v@.len(),
            r@ == replace_nbsp(v@.subrange(lo as int, i as int)),
        decreases hi - i,
    {
        let c = v[i];
        r.push(if c == '\u{A0}' { ' ' } else { c });
        assert(replace_nbsp(v@.subrange(lo as int, i + 1)) =~= replace_nbsp(
            v@.subrange(lo as int, i as int),
        ).push(if c == '\u{A0}' { ' ' } else { c }));
        i = i + 1;
    }
    r
}

/// Does `v[lo..hi]` contain `c`?
pub fn contains_char_range(v: &Vec<char>, lo: usize, hi: usize, c: char) -> (r: bool)
    requires
        lo <= hi <= v@.len(),
    ensures
        r == v@.subrange(lo as int, hi as int).contains(c),
{
    let mut i = lo;
    while i < hi
        invariant
            lo <= i <= hi <= v@.len(),
            forall|j: int| lo <= j < i ==> v@[j] != c,
        decreases hi - i,
    {
        if v[i] == c {
            assert(v@.subrange(lo as int, hi as int)[i - lo] == c);
            return true;
        }
        i = i + 1;
    }
    assert forall|j: int| 0 <= j < hi - lo implies v@.subrange(lo as int, hi as int)[j] != c by {
        assert(v@.subrange(lo as int, hi as int)[j] == v@[lo + j]);
    }
    false
}


/// Character-wise equality of two strings.
pub fn str_eq(a: &str, b: &str) -> (r: bool)
    ensures
        r == (a@ == b@),
{
    let va = chars_of(a);
    let vb = chars_of(b);
    if va.len() != vb.len() {
        return false;
    }
    let mut i: usize = 0;
    while i < va.len()
        invariant
            va@.len() == vb@.len(),
            0 <= i <= va@.len(),
            va@ == a@,
            vb@ == b@,
            forall|j: int| 0 <= j < i ==> va@[j] == vb@[j],
        decreases va@.len() - i,
    {
        if va[i] != vb[i] {
            return false;
        }
        i = i + 1;
    }
    assert(va@ =~= vb@);
    true
}

/// Does `s` begin with `p`?
pub fn str_starts_with(s: &str, p: &str) -> (r: bool)
    ensures
        r == (p@.len() <= s@.len() && s@.take(p@.len() as int) == p@),
{
    let vs = chars_of(s);
    let vp = chars_of(p);
    if vp.len() > vs.len() {
        return false;
    }
    let mut i: usize = 0;
    while i < vp.len()
        invariant
            vp@.len() <= vs@.len(),
            vs@ == s@,
            vp@ == p@,
            0 <= i <= vp@.len(),
            forall|j: int| 0 <= j < i ==> vs@[j] == vp@[j],
        decreases vp@.len() - i,
    {
        if vs[i] != vp[i] {
            assert(vs@.take(vp@.len() as int)[i as int] != vp@[i as int]);
            return false;
        }
        i = i + 1;
    }
    assert(vs@.take(vp@.len() as int) =~= vp@);
    true
}

/// Code-point order on strings, which is the order `String`'s `Ord` gives
/// (UTF-8 byte order agrees with code-point order).
pub open spec fn lex_lt(a: Seq<char>, b: Seq<char>) -> bool
    decreases a.len(),
{
    if a.len() == 0 {
        b.len() > 0
    } else if b.len() == 0 {
        false
    } else if a[0] != b[0] {
        a[0] < b[0]
    } else {
        lex_lt(a.drop_first(), b.drop_first())
    }
}

pub proof fn lemma_lex_irreflexive(a: Seq<char>)
    ensures
        !lex_lt(a, a),
    decreases a.len(),
{
    if a.len() > 0 {
        lemma_lex_irreflexive(a.drop_first());
    }
}

pub proof fn lemma_lex_asymmetric(a: Seq<char>, b: Seq<char>)
    ensures
        lex_lt(a, b) ==> !lex_lt(b, a),
    decreases a.len(),
{
    if a.len() > 0 && b.len() > 0 && a[0] == b[0] {
        lemma_lex_asymmetric(a.drop_first(), b.drop_first());
    }
}

pub proof fn lemma_lex_transitive(a: Seq<char>, b: Seq<char>, c: Seq<char>)
    requires
        lex_lt(a, b),
        lex_lt(b, c),
    ensures
        lex_lt(a, c),
    decreases a.len(),
{
    if a.len() > 0 && b.len() > 0 && c.len() > 0 && a[0] == b[0] && b[0] == c[0] {
        lemma_lex_transitive(a.drop_first(), b.drop_first(), c.drop_first());
    }
}

pub proof fn lemma_lex_total(a: Seq<char>, b: Seq<char>)
    ensures
        a != b ==> lex_lt(a, b) || lex_lt(b, a),
    decreases a.len(),
{
    if a.len() > 0 && b.len() > 0 {
        if a[0] == b[0] {
            lemma_lex_total(a.drop_first(), b.drop_first());
            if a.drop_first() == b.drop_first() {
                assert(a =~= seq![a[0]] + a.drop_first());
                assert(b =~= seq![b[0]] + b.drop_first());
            }
        }
    }
    if a.len() == 0 && b.len() == 0 {
        assert(a =~= b);
    }
}

/// Compares `a` and `b` in code-point order: negative, zero or positive as
/// `a` sorts before, equal to, or after `b`.
pub fn compare_strs(a: &str, b: &str) -> (r: i8)
    ensures
        r < 0 <==> lex_lt(a@, b@),
        r == 0 <==> a@ == b@,
        r > 0 <==> lex_lt(b@, a@),
{
    let va = chars_of(a);
    let vb = chars_of(b);
    let mut i: usize = 0;
    while i < va.len() && i < vb.len() && va[i] == vb[i]
        invariant
            va@ == a@,
            vb@ == b@,
            i <= va@.len(),
            i <= vb@.len(),
            forall|j: int| 0 <= j < i ==> va@[j] == vb@[j],
        decreases va@.len() - i,
    {
        i = i + 1;
    }
    proof {
        lemma_lex_skip_common(a@, b@, i as int);
        lemma_lex_irreflexive(a@);
        lemma_lex_asymmetric(a@, b@);
        lemma_lex_total(a@, b@);
    }
    if i == va.len() && i == vb.len() {
        assert(va@ =~= vb@);
        0
    } else if i == va.len() {
        -1
    } else if i == vb.len() {
        1
    } else if va[i] < vb[i] {
        -1
    } else {
        1
    }
}

/// Skipping a common prefix does not change the order.
pub proof fn lemma_lex_skip_common(a: Seq<char>, b: Seq<char>, i: int)
    requires
        0 <= i <= a.len(),
        i <= b.len(),
        forall|j: int| 0 <= j < i ==> a[j] == b[j],
    ensures
        lex_lt(a, b) == lex_lt(a.skip(i), b.skip(i)),
    decreases i,
{
    if i > 0 {
        assert forall|j: int| 0 <= j < i - 1 implies a.drop_first()[j] == b.drop_first()[j] by {
            assert(a.drop_first()[j] == a[j + 1]);
        }
        lemma_lex_skip_common(a.drop_first(), b.drop_first(), i - 1);
        assert(a.drop_first().skip(i - 1) =~= a.skip(i));
        assert(b.drop_first().skip(i - 1) =~= b.skip(i));
    } else {
        assert(a.skip(0) =~= a);
        assert(b.skip(0) =~= b);
    }
}

/// The ASCII digit for `d` (`0..=9`).
pub open spec fn digit_char(d: nat) -> char {
    (48 + d) as char
}

/// The decimal numeral of `n`, without leading zeros (`u64`'s `Display`).
pub open spec fn dec_digits(n: nat) -> Seq<char>
    decreases n,
{
    if n < 10 {
        seq![digit_char(n)]
    } else {
        dec_digits(n / 10).push(digit_char(n % 10))
    }
}

/// The decimal numeral of `n` with a leading `-` when negative (`i64`'s
/// `Display`).
pub open spec fn int_text(n: int) -> Seq<char> {
    if n < 0 {
        seq!['-'] + dec_digits((-n) as nat)
    } else {
        dec_digits(n as nat)
    }
}

/// Appends the decimal numeral of `n` to `s`.
pub fn push_u64(s: &mut String, n: u64)
    ensures
        final(s)@ == old(s)@ + dec_digits(n as nat),
    decreases n,
{
    if n >= 10 {
        push_u64(s, n / 10);
    }
    let d: u8 = (n % 10) as u8;
    push_char(s, (48u8 + d) as char);
    proof {
        if n >= 10 {
            assert(dec_digits(n as nat) == dec_digits((n / 10) as nat).push(digit_char((n % 10) as nat)));
        }
    }
}

/// Appends the decimal numeral of `n`, with a `-` when negative.
pub fn push_i64(s: &mut String, n: i64)
    ensures
        final(s)@ == old(s)@ + int_text(n as int),
{
    if n < 0 {
        push_char(s, '-');
        let m: u64 = if n == i64::MIN {
            9223372036854775808u64
        } else {
            (-n) as u64
        };
        push_u64(s, m);
        assert(final(s)@ =~= old(s)@ + int_text(n as int));
    } else {
        push_u64(s, n as u64);
    }
}

/// `s` without leading and trailing whitespace (`str::trim`).
pub fn trimmed(s: &str) -> (r: String)
    ensures
        r@ == trim(s@),
{
    let v = chars_of(s);
    let n = v.len();
    proof {
        assert(v@.subrange(0, n as int) =~= v@);
    }
    let (a, b) = trim_range(&v, 0, n);
    string_of_range(&v, a, b)
}

/// A string has no more characters than UTF-8 bytes.
pub proof fn lemma_chars_at_most_bytes(s: Seq<char>)
    ensures
        s.len() <= vstd::utf8::encode_utf8(s).len(),
    decreases s.len(),
{
    if s.len() > 0 {
        lemma_chars_at_most_bytes(s.drop_first());
    }
}

/// Splitting yields at most one piece more than there are characters.
pub proof fn lemma_split_char_len(s: Seq<char>, d: char)
    ensures
        split_char(s, d).len() <= s.len() + 1,
    decreases s.len(),
{
    if s.len() > 0 {
        lemma_split_char_len(s.drop_last(), d);
        lemma_split_char_nonempty(s.drop_last(), d);
    }
}

/// A text has at most one line more than it has UTF-8 bytes.
pub proof fn lemma_lines_bounded_by_bytes(s: Seq<char>)
    ensures
        lines(s).len() <= vstd::utf8::encode_utf8(s).len() + 1,
{
    lemma_split_char_len(s, '\n');
    lemma_split_char_nonempty(s, '\n');
    lemma_chars_at_most_bytes(s);
}

/// A text's UTF-8 encoding is at least as long as that of any suffix.
proof fn lemma_utf8_suffix_shorter(s: Seq<char>, i: int)
    requires
        0 <= i <= s.len(),
    ensures
        vstd::utf8::encode_utf8(s.skip(i)).len() <= vstd::utf8::encode_utf8(s).len(),
    decreases i,
{
    if i > 0 {
        lemma_utf8_suffix_shorter(s.drop_first(), i - 1);
        assert(s.drop_first().skip(i - 1) =~= s.skip(i));
    } else {
        assert(s.skip(0) =~= s);
    }
}

/// Whether `s` takes more than `limit` bytes in UTF-8; it stops counting
/// once the limit is passed, so it needs no bound on the text.
pub fn utf8_len_exceeds(s: &str, limit: usize) -> (r: bool)
    ensures
        r == (vstd::utf8::encode_utf8(s@).len() > limit),
{
    let v = chars_of(s);
    let mut i: usize = v.len();
    let mut total: usize = 0;
    assert(v@.skip(i as int) =~= Seq::<char>::empty());
    while i > 0
        invariant
            i <= v@.len(),
            v@ == s@,
            total == vstd::utf8::encode_utf8(v@.skip(i as int)).len(),
            total <= limit,
        decreases i,
    {
        let c = v[i - 1];
        let w: usize = if (c as u32) < 0x80 {
            1
        } else if (c as u32) < 0x800 {
            2
        } else if (c as u32) < 0x10000 {
            3
        } else {
            4
        };
        proof {
            assert(v@.skip(i - 1).drop_first() =~= v@.skip(i as int));
            assert(v@.skip(i - 1)[0] == c);
            vstd::utf8::char_is_scalar(c);
            assert(vstd::utf8::encode_scalar(c as u32).len() == w);
        }
        if w > limit - total {
            proof {
                lemma_utf8_suffix_shorter(v@, i - 1);
            }
            return true;
        }
        total = total + w;
        i = i - 1;
    }
    assert(v@.skip(0) =~= v@);
    false
}

/// The byte length of `s`, as `str::len` gives it.
pub fn byte_len(s: &str) -> (r: usize)
    requires
        vstd::utf8::encode_utf8(s@).len() <= usize::MAX,
    ensures
        r == vstd::utf8::encode_utf8(s@).len(),
{
    s.len()
}

} // verus!
