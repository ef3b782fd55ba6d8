//! Recognizers for the textual number formats accepted by `i64::from_str`
//! and `f64::from_str`, written against their documented grammars.

use vstd::prelude::*;

verus! {

pub open spec fn is_digit(c: char) -> bool {
    '0' <= c && c <= '9'
}

pub open spec fn all_digits(s: Seq<char>) -> bool {
    forall|i: int| 0 <= i < s.len() ==> is_digit(#[trigger] s[i])
}

/// The value of a string of decimal digits.
pub open spec fn digits_value(s: Seq<char>) -> int
    decreases s.len(),
{
    if s.len() == 0 {
        0
    } else {
        digits_value(s.drop_last()) * 10 + (s.last() as int - '0' as int)
    }
}

/// The result of `i64::from_str`: an optional `+` or `-` followed by one or
/// more ASCII digits, whose value fits in an `i64`.
pub open spec fn parse_i64(s: Seq<char>) -> Option<i64> {
    if s.len() == 0 {
        None
    } else {
        let neg = s[0] == '-';
        let body = if s[0] == '-' || s[0] == '+' {
            s.drop_first()
        } else {
            s
        };
        if body.len() == 0 || !all_digits(body) {
            None
        } else {
            let v: int = if neg {
                -digits_value(body)
            } else {
                digits_value(body)
            };
            if i64::MIN <= v && v <= i64::MAX {
                Some(v as i64)
            } else {
                None
            }
        }
    }
}

proof fn lemma_digits_value_nonneg(s: Seq<char>)
    requires
        all_digits(s),
    ensures
        digits_value(s) >= 0,
    decreases s.len(),
{
    if s.len() > 0 {
        lemma_digits_value_nonneg(s.drop_last());
    }
}

/// The largest magnitude tracked while accumulating digits; anything at or
/// above it is out of range for `i64` whatever the sign.
pub open spec fn digit_cap() -> int {
    9223372036854775809
}

fn digit_of(c: char) -> (d: u8)
    requires
        is_digit(c),
    ensures
        d as int == c as int - '0' as int,
        d <= 9,
{
    let n = c as u32;
    (n - 48) as u8
}

/// `i64::from_str` on `v[lo..hi]`.
pub fn parse_i64_range(v: &Vec<char>, lo: usize, hi: usize) -> (r: Option<i64>)
    requires
        lo <= hi <= v@.len(),
    ensures
        r == parse_i64(v@.subrange(lo as int, hi as int)),
{
    let ghost s = v@.subrange(lo as int, hi as int);
    if lo == hi {
        return None;
    }
    let neg = v[lo] == '-';
    let start = if v[lo] == '-' || v[lo] == '+' { lo + 1 } else { lo };
    let ghost body = v@.subrange(start as int, hi as int);
    assert(body == if s[0] == '-' || s[0] == '+' { s.drop_first() } else { s });
    if start == hi {
        return None;
    }
    let mut acc: u128 = 0;
    let mut i = start;
    assert(v@.subrange(start as int, start as int) =~= Seq::<char>::empty());
    while i < hi
        invariant
            lo <= start <= i <= hi <= v@.len(),
            body == v@.subrange(start as int, hi as int),
            s == v@.subrange(lo as int, hi as int),
            s.len() > 0,
            body.len() > 0,
            body == if s[0] == '-' || s[0] == '+' {
                s.drop_first()
            } else {
                s
            },
            neg == (s[0] == '-'),
            all_digits(v@.subrange(start as int, i as int)),
            acc as int == if digits_value(v@.subrange(start as int, i as int)) < digit_cap() {
                digits_value(v@.subrange(start as int, i as int))
            } else {
                digit_cap()
            },
        decreases hi - i,
    {
        let c = v[i];
        if !('0' <= c && c <= '9') {
            assert(body[i - start] == c);
            assert(!is_digit(body[i - start]));
            assert(!all_digits(body));
            return None;
        }
        let d = digit_of(c);
        let ghost p = v@.subrange(start as int, i as int);
        let ghost p1 = v@.subrange(start as int, i + 1);
        assert(p1.drop_last() =~= p);
        assert(p1.last() == c);
        assert(all_digits(p1));
        proof {
            lemma_digits_value_nonneg(p);
        }
        let next: u128 = acc * 10 + d as u128;
        acc = if next < 9223372036854775809 { next } else { 9223372036854775809 };
        assert(acc as int == if digits_value(p1) < digit_cap() {
            digits_value(p1)
        } else {
            digit_cap()
        }) by (nonlinear_arith)
            requires
                digits_value(p1) == digits_value(p) * 10 + d,
                digits_value(p) >= 0,
                0 <= d <= 9,
                next as int == (if digits_value(p) < digit_cap() {
                    digits_value(p)
                } else {
                    digit_cap()
                }) * 10 + d,
                acc as int == (if (next as int) < digit_cap() { next as int } else { digit_cap() }),
        ;
        i = i + 1;
    }
    assert(v@.subrange(start as int, hi as int) == body);
    if neg {
        if acc <= 9223372036854775808 {
            let m = acc as i128;
            Some((-m) as i64)
        } else {
            None
        }
    } else {
        if acc <= 9223372036854775807 {
            Some(acc as i64)
        } else {
            None
        }
    }
}


/// `c` equals the lower-case ASCII letter `l`, ignoring ASCII case.
pub open spec fn ci_eq(c: char, l: char) -> bool {
    c == l || ('a' <= l && l <= 'z' && c as int == l as int - 32)
}

/// `s` spells `w` (given in lower case), ignoring ASCII case.
pub open spec fn word_ci(s: Seq<char>, w: Seq<char>) -> bool {
    s.len() == w.len() && forall|i: int| 0 <= i < s.len() ==> ci_eq(#[trigger] s[i], w[i])
}

pub open spec fn strip_sign(s: Seq<char>) -> Seq<char> {
    if s.len() > 0 && (s[0] == '+' || s[0] == '-') {
        s.drop_first()
    } else {
        s
    }
}

pub open spec fn is_exp_mark(c: char) -> bool {
    c == 'e' || c == 'E'
}

/// `Digit+ | Digit+ '.' Digit* | Digit* '.' Digit+`.
pub open spec fn valid_mantissa(m: Seq<char>) -> bool {
    &&& forall|i: int| 0 <= i < m.len() ==> is_digit(#[trigger] m[i]) || m[i] == '.'
    &&& forall|i: int, j: int| 0 <= i < j < m.len() ==> !(#[trigger] m[i] == '.' && #[trigger] m[j] == '.')
    &&& exists|i: int| 0 <= i < m.len() && is_digit(#[trigger] m[i])
}

/// The part after `e`: `Sign? Digit+`.
pub open spec fn valid_exponent(x: Seq<char>) -> bool {
    strip_sign(x).len() > 0 && all_digits(strip_sign(x))
}

/// `Number ::= Mantissa Exp?`.
pub open spec fn is_number(b: Seq<char>) -> bool {
    ||| valid_mantissa(b)
    ||| exists|k: int|
        0 <= k < b.len() && is_exp_mark(#[trigger] b[k]) && valid_mantissa(b.take(k))
            && valid_exponent(b.skip(k + 1))
}

/// The grammar of `f64::from_str`:
/// `Sign? ( 'inf' | 'infinity' | 'nan' | Number )`, letters in any ASCII case.
pub open spec fn is_float_literal(s: Seq<char>) -> bool {
    let b = strip_sign(s);
    ||| word_ci(b, seq!['i', 'n', 'f'])
    ||| word_ci(b, seq!['i', 'n', 'f', 'i', 'n', 'i', 't', 'y'])
    ||| word_ci(b, seq!['n', 'a', 'n'])
    ||| is_number(b)
}

/// Does `v[lo..hi]` spell the lower-case ASCII word `w`, ignoring case?
fn word_ci_range(v: &Vec<char>, lo: usize, hi: usize, w: &Vec<char>) -> (r: bool)
    requires
        lo <= hi <= v@.len(),
        forall|i: int| 0 <= i < w@.len() ==> 'a' <= #[trigger] w@[i] && w@[i] <= 'z',
    ensures
        r == word_ci(v@.subrange(lo as int, hi as int), w@),
{
    let ghost s = v@.subrange(lo as int, hi as int);
    if hi - lo != w.len() {
        return false;
    }
    let mut i: usize = 0;
    while i < w.len()
        invariant
            hi - lo == w@.len(),
            lo <= hi <= v@.len(),
            s == v@.subrange(lo as int, hi as int),
            0 <= i <= w@.len(),
            forall|j: int| 0 <= j < w@.len() ==> 'a' <= #[trigger] w@[j] && w@[j] <= 'z',
            forall|j: int| 0 <= j < i ==> ci_eq(#[trigger] s[j], w@[j]),
        decreases w@.len() - i,
    {
        let c = v[lo + i];
        let l = w[i];
        let upper = ((l as u32) - 32) as u8 as char;
        assert(s[i as int] == c);
        if !(c == l || c == upper) {
            assert(!ci_eq(s[i as int], w@[i as int]));
            return false;
        }
        i = i + 1;
    }
    true
}

/// Is `v[lo..hi]` a valid mantissa?
fn mantissa_range(v: &Vec<char>, lo: usize, hi: usize) -> (r: bool)
    requires
        lo <= hi <= v@.len(),
    ensures
        r == valid_mantissa(v@.subrange(lo as int, hi as int)),
{
    let ghost m = v@.subrange(lo as int, hi as int);
    let mut dot: Option<usize> = None;
    let mut digit: Option<usize> = None;
    let mut i = lo;
    while i < hi
        invariant
            lo <= i <= hi <= v@.len(),
            m == v@.subrange(lo as int, hi as int),
            forall|j: int| 0 <= j < i - lo ==> is_digit(#[trigger] m[j]) || m[j] == '.',
            dot.is_none() ==> forall|j: int| 0 <= j < i - lo ==> #[trigger] m[j] != '.',
            dot.is_some() ==> lo <= dot.unwrap() < i && m[dot.unwrap() - lo] == '.'
                && forall|j: int| 0 <= j < i - lo && j != dot.unwrap() - lo ==> #[trigger] m[j] != '.',
            digit.is_none() ==> forall|j: int| 0 <= j < i - lo ==> !is_digit(#[trigger] m[j]),
            digit.is_some() ==> lo <= digit.unwrap() < i && is_digit(m[digit.unwrap() - lo]),
        decreases hi - i,
    {
        let c = v[i];
        assert(m[i - lo] == c);
        if '0' <= c && c <= '9' {
            digit = Some(i);
        } else if c == '.' {
            if dot.is_some() {
                let k = dot.unwrap();
                assert(m[k - lo] == '.' && m[i - lo] == '.');
                return false;
            }
            dot = Some(i);
        } else {
            assert(!(is_digit(m[i - lo]) || m[i - lo] == '.'));
            return false;
        }
        i = i + 1;
    }
    if digit.is_none() {
        return false;
    }
    let k = digit.unwrap();
    assert(is_digit(m[k - lo]));
    true
}

/// Is `v[lo..hi]` a valid exponent (after the `e`)?
fn exponent_range(v: &Vec<char>, lo: usize, hi: usize) -> (r: bool)
    requires
        lo <= hi <= v@.len(),
    ensures
        r == valid_exponent(v@.subrange(lo as int, hi as int)),
{
    let ghost x = v@.subrange(lo as int, hi as int);
    let start = if lo < hi && (v[lo] == '+' || v[lo] == '-') { lo + 1 } else { lo };
    assert(strip_sign(x) =~= v@.subrange(start as int, hi as int));
    if start == hi {
        return false;
    }
    let mut i = start;
    while i < hi
        invariant
            lo <= start <= i <= hi <= v@.len(),
            strip_sign(v@.subrange(lo as int, hi as int)) == v@.subrange(start as int, hi as int),
            forall|j: int| start <= j < i ==> is_digit(#[trigger] v@[j]),
        decreases hi - i,
    {
        if !('0' <= v[i] && v[i] <= '9') {
            assert(!is_digit(v@.subrange(start as int, hi as int)[i - start]));
            return false;
        }
        i = i + 1;
    }
    assert forall|j: int| 0 <= j < hi - start implies is_digit(
        #[trigger] v@.subrange(start as int, hi as int)[j],
    ) by {
        assert(v@.subrange(start as int, hi as int)[j] == v@[start + j]);
    }
    true
}

/// Does all of `v` match the grammar of `f64::from_str`?
pub fn float_literal(v: &Vec<char>) -> (r: bool)
    ensures
        r == is_float_literal(v@),
{
    let n = v.len();
    let lo = if n > 0 && (v[0] == '+' || v[0] == '-') { 1 } else { 0 };
    let ghost b = strip_sign(v@);
    assert(b =~= v@.subrange(lo as int, n as int));
    let w_inf: Vec<char> = vec!['i', 'n', 'f'];
    let w_infinity: Vec<char> = vec!['i', 'n', 'f', 'i', 'n', 'i', 't', 'y'];
    let w_nan: Vec<char> = vec!['n', 'a', 'n'];
    assert(w_inf@ =~= seq!['i', 'n', 'f']);
    assert(w_infinity@ =~= seq!['i', 'n', 'f', 'i', 'n', 'i', 't', 'y']);
    assert(w_nan@ =~= seq!['n', 'a', 'n']);
    if word_ci_range(v, lo, n, &w_inf) || word_ci_range(v, lo, n, &w_infinity)
        || word_ci_range(v, lo, n, &w_nan) {
        return true;
    }
    // The exponent begins at the first `e` or `E`, if any.
    let mut k = lo;
    while k < n && !(v[k] == 'e' || v[k] == 'E')
        invariant
            lo <= k <= n == v@.len(),
            forall|j: int| lo <= j < k ==> !is_exp_mark(#[trigger] v@[j]),
        decreases n - k,
    {
        k = k + 1;
    }
    if k == n {
        let r = mantissa_range(v, lo, n);
        assert forall|k2: int| 0 <= k2 < b.len() implies !is_exp_mark(#[trigger] b[k2]) by {
            assert(b[k2] == v@[lo + k2]);
        }
        return r;
    }
    let ghost kk = k - lo;
    assert(b[kk] == v@[k as int]);
    assert(b.take(kk) =~= v@.subrange(lo as int, k as int));
    assert(b.skip(kk + 1) =~= v@.subrange(k + 1, n as int));
    let m = mantissa_range(v, lo, k);
    let e = exponent_range(v, k + 1, n);
    if m && e {
        return true;
    }
    // `b` has an `e` at `kk`, so it is no mantissa, and `kk` is the only
    // split a mantissa could end at.
    assert(!(is_digit(b[kk]) || b[kk] == '.'));
    assert forall|k2: int|
        0 <= k2 < b.len() && is_exp_mark(#[trigger] b[k2]) implies !(valid_mantissa(b.take(k2))
        && valid_exponent(b.skip(k2 + 1))) by {
        if k2 < kk {
            assert(b[k2] == v@[lo + k2]);
        } else if k2 > kk {
            assert(b.take(k2)[kk] == b[kk]);
        }
    }
    false
}

} // verus!
