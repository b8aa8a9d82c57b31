//! Decimal integer parsing and printing, and a recognizer for the
//! grammar that Rust's float parser accepts.
//!
//! Vote counts round-trip through their decimal text when a record is
//! flattened into a string-valued store and read back; the inverse
//! lemma at the bottom carries that proof. Popularity values are kept
//! as numeric text and only validated, never interpreted.

use vstd::prelude::*;

verus! {

pub open spec fn is_digit(c: char) -> bool {
    48 <= (c as u32) && (c as u32) <= 57
}

pub open spec fn digit_val(c: char) -> int {
    (c as u32) - 48
}

pub open spec fn all_digits(s: Seq<char>) -> bool {
    forall|i: int| 0 <= i < s.len() ==> is_digit(s[i])
}

/// The value of a digit string, most significant digit first.
pub open spec fn dec_val(s: Seq<char>) -> int
    decreases s.len(),
{
    if s.len() == 0 {
        0
    } else {
        dec_val(s.drop_last()) * 10 + digit_val(s.last())
    }
}

/// The digit part of an optionally signed integer literal.
pub open spec fn int_digits(s: Seq<char>) -> Seq<char> {
    if s.len() > 0 && (s[0] == '+' || s[0] == '-') {
        s.drop_first()
    } else {
        s
    }
}

/// The grammar `i32::from_str` accepts: an optional sign, then one or
/// more digits.
pub open spec fn is_int_text(s: Seq<char>) -> bool {
    int_digits(s).len() > 0 && all_digits(int_digits(s))
}

pub open spec fn int_text_val(s: Seq<char>) -> int {
    if s.len() > 0 && s[0] == '-' {
        -dec_val(int_digits(s))
    } else {
        dec_val(int_digits(s))
    }
}

/// What `str::parse::<i32>` returns: the value when the text is a
/// well-formed integer literal in range, and nothing otherwise.
pub open spec fn spec_parse_i32(s: Seq<char>) -> Option<i32> {
    if is_int_text(s) && i32::MIN <= int_text_val(s) <= i32::MAX {
        Some(int_text_val(s) as i32)
    } else {
        None
    }
}

pub fn is_digit_char(c: char) -> (r: bool)
    ensures
        r == is_digit(c),
{
    let u = c as u32;
    48 <= u && u <= 57
}

proof fn lemma_dec_val_nonneg(s: Seq<char>)
    requires
        all_digits(s),
    ensures
        dec_val(s) >= 0,
    decreases s.len(),
{
    if s.len() > 0 {
        assert(all_digits(s.drop_last()));
        lemma_dec_val_nonneg(s.drop_last());
    }
}

/// Extending a digit string can only grow its value.
proof fn lemma_dec_val_prefix(s: Seq<char>, i: int)
    requires
        all_digits(s),
        0 <= i <= s.len(),
    ensures
        dec_val(s) >= dec_val(s.take(i)),
    decreases s.len() - i,
{
    if i < s.len() {
        lemma_dec_val_prefix(s, i + 1);
        let t = s.take(i + 1);
        assert(t.drop_last() =~= s.take(i));
        assert(t.last() == s[i]);
        assert(all_digits(s.take(i)));
        lemma_dec_val_nonneg(s.take(i));
    } else {
        assert(s.take(i) =~= s);
    }
}

/// Parses an optionally signed decimal integer, as `str::parse::<i32>`
/// would.
pub fn parse_i32(s: &str) -> (r: Option<i32>)
    ensures
        r == spec_parse_i32(s@),
{
    let v = crate::text::str_chars(s);
    let ghost t = int_digits(s@);
    let mut i: usize = 0;
    let mut neg = false;
    if v.len() > 0 && (v[0] == '+' || v[0] == '-') {
        neg = v[0] == '-';
        i = 1;
    }
    let ghost lo = i as int;
    assert(t =~= s@.skip(lo));
    if i == v.len() {
        // no digits at all
        return None;
    }
    let mut acc: i64 = 0;
    while i < v.len()
        invariant
            v@ == s@,
            lo <= i <= v@.len(),
            lo == 0 || lo == 1,
            t == s@.skip(lo),
            t == int_digits(s@),
            0 <= acc <= 0xa_0000_0009i64,
            acc == dec_val(t.take(i - lo)),
            all_digits(t.take(i - lo)),
        decreases v@.len() - i,
    {
        let c = v[i];
        if !is_digit_char(c) {
            assert(0 <= i - lo < t.len());
            assert(t[i - lo] == s@[i as int]);
            assert(!is_digit(t[i - lo]));
            assert(!all_digits(t));
            return None;
        }
        if acc > 0x1_0000_0000i64 {
            // the value already exceeds any i32; the rest of the scan
            // can only confirm a failure
            assert(spec_parse_i32(s@) is None) by {
                if is_int_text(s@) {
                    lemma_dec_val_prefix(t, i - lo);
                    lemma_dec_val_nonneg(t);
                    assert(dec_val(t) >= acc);
                    assert(int_text_val(s@) > i32::MAX || int_text_val(s@) < i32::MIN);
                }
            }
            return None;
        }
        let d = (c as u32) - 48;
        acc = acc * 10 + (d as i64);
        i += 1;
        assert(t.take(i - lo).drop_last() =~= t.take(i - lo - 1));
        assert(t.take(i - lo).last() == s@[i - 1]);
    }
    assert(t.take(v@.len() - lo) =~= t);
    assert(is_int_text(s@));
    if neg {
        if acc > 0x8000_0000i64 {
            return None;
        }
        Some((-acc) as i32)
    } else {
        if acc > 0x7fff_ffffi64 {
            return None;
        }
        Some(acc as i32)
    }
}

pub open spec fn digit_char(n: int) -> char {
    if n == 0 { '0' }
    else if n == 1 { '1' }
    else if n == 2 { '2' }
    else if n == 3 { '3' }
    else if n == 4 { '4' }
    else if n == 5 { '5' }
    else if n == 6 { '6' }
    else if n == 7 { '7' }
    else if n == 8 { '8' }
    else { '9' }
}

/// The decimal digits of `n`, most significant first.
pub open spec fn dec_digits(n: int) -> Seq<char>
    decreases n,
{
    if n < 10 {
        seq![digit_char(n)]
    } else {
        dec_digits(n / 10).push(digit_char(n % 10))
    }
}

/// The decimal text of `v`, with a leading minus sign when negative.
pub open spec fn int_str(v: int) -> Seq<char> {
    if v < 0 {
        seq!['-'] + dec_digits(-v)
    } else {
        dec_digits(v)
    }
}

fn digit_to_char(d: u32) -> (c: char)
    requires
        d < 10,
    ensures
        c == digit_char(d as int),
{
    if d == 0 { '0' }
    else if d == 1 { '1' }
    else if d == 2 { '2' }
    else if d == 3 { '3' }
    else if d == 4 { '4' }
    else if d == 5 { '5' }
    else if d == 6 { '6' }
    else if d == 7 { '7' }
    else if d == 8 { '8' }
    else { '9' }
}

fn u32_dec_chars(n: u32) -> (r: Vec<char>)
    ensures
        r@ == dec_digits(n as int),
    decreases n,
{
    if n < 10 {
        let mut r: Vec<char> = Vec::new();
        r.push(digit_to_char(n));
        assert(r@ =~= seq![digit_char(n as int)]);
        r
    } else {
        let mut r = u32_dec_chars(n / 10);
        r.push(digit_to_char(n % 10));
        r
    }
}

/// Renders `v` in decimal, as `i32`'s `Display` would.
pub fn i32_to_dec_string(v: i32) -> (r: String)
    ensures
        r@ == int_str(v as int),
{
    if v >= 0 {
        let d = u32_dec_chars(v as u32);
        crate::text::chars_to_string(&d)
    } else {
        let m = (-(v as i64)) as u32;
        let d = u32_dec_chars(m);
        let mut out: Vec<char> = Vec::new();
        out.push('-');
        let mut dd = d;
        out.append(&mut dd);
        assert(out@ =~= seq!['-'] + dec_digits(m as int));
        crate::text::chars_to_string(&out)
    }
}

proof fn lemma_dec_digits_digits(n: int)
    requires
        n >= 0,
    ensures
        dec_digits(n).len() >= 1,
        all_digits(dec_digits(n)),
    decreases n,
{
    if n >= 10 {
        lemma_dec_digits_digits(n / 10);
    }
}

proof fn lemma_dec_val_digits(n: int)
    requires
        n >= 0,
    ensures
        dec_val(dec_digits(n)) == n,
    decreases n,
{
    if n < 10 {
        let s = dec_digits(n);
        assert(s.drop_last() =~= Seq::<char>::empty());
        assert(s.last() == digit_char(n));
        assert(digit_val(digit_char(n)) == n);
        assert(dec_val(s) == dec_val(s.drop_last()) * 10 + digit_val(s.last()));
    } else {
        lemma_dec_val_digits(n / 10);
        let s = dec_digits(n);
        assert(s.drop_last() =~= dec_digits(n / 10));
    }
}

/// Printing an `i32` and parsing the text back returns the same value.
pub proof fn lemma_parse_int_str(v: int)
    requires
        i32::MIN <= v <= i32::MAX,
    ensures
        spec_parse_i32(int_str(v)) == Some(v as i32),
{
    if v >= 0 {
        lemma_dec_digits_digits(v);
        lemma_dec_val_digits(v);
        let s = int_str(v);
        assert(!(s[0] == '+' || s[0] == '-'));
        assert(int_digits(s) == s);
    } else {
        lemma_dec_digits_digits(-v);
        lemma_dec_val_digits(-v);
        let s = int_str(v);
        assert(s[0] == '-');
        assert(s.drop_first() =~= dec_digits(-v));
        assert(int_text_val(s) == v);
    }
}

/// `s` equals `lit` up to ASCII case, where `lit` is lower case.
pub open spec fn matches_ci(s: Seq<char>, lit: Seq<char>) -> bool {
    s.len() == lit.len()
        && forall|i: int| 0 <= i < s.len()
            ==> s[i] == lit[i] || (s[i] as u32) + 32 == (lit[i] as u32)
}

/// The special non-finite spellings the float grammar accepts.
pub open spec fn is_inf_nan(t: Seq<char>) -> bool {
    matches_ci(t, seq!['i', 'n', 'f'])
        || matches_ci(t, seq!['i', 'n', 'f', 'i', 'n', 'i', 't', 'y'])
        || matches_ci(t, seq!['n', 'a', 'n'])
}

/// Digits with at most one decimal point, and at least one digit.
pub open spec fn is_mantissa(m: Seq<char>) -> bool {
    (m.len() > 0 && all_digits(m))
        || (exists|d: int|
            0 <= d < m.len() && m[d] == '.' && m.len() > 1
                && (forall|j: int| 0 <= j < d ==> is_digit(m[j]))
                && (forall|j: int| d < j < m.len() ==> is_digit(m[j])))
}

/// A mantissa with an optional `e`/`E` exponent part.
pub open spec fn is_number_text(t: Seq<char>) -> bool {
    is_mantissa(t)
        || (exists|e: int|
            0 <= e < t.len() && (t[e] == 'e' || t[e] == 'E')
                && is_mantissa(t.take(e)) && is_int_text(t.skip(e + 1)))
}

/// The grammar `f32::from_str` accepts: an optional sign, then one of
/// the non-finite spellings or a decimal number with an optional
/// exponent.
pub open spec fn is_float_text(s: Seq<char>) -> bool {
    is_inf_nan(int_digits(s)) || is_number_text(int_digits(s))
}

/// Case-insensitive comparison of `v` from position `lo` against a
/// lower-case pattern.
fn tail_matches_ci(v: &Vec<char>, lo: usize, lit: &Vec<char>) -> (r: bool)
    requires
        lo <= v@.len(),
    ensures
        r == matches_ci(v@.skip(lo as int), lit@),
{
    let ghost t = v@.skip(lo as int);
    if v.len() - lo != lit.len() {
        return false;
    }
    let mut i: usize = 0;
    while i < lit.len()
        invariant
            lo + lit@.len() == v@.len(),
            v@.len() <= usize::MAX,
            t == v@.skip(lo as int),
            i <= lit@.len(),
            forall|j: int| 0 <= j < i
                ==> t[j] == lit@[j] || (t[j] as u32) + 32 == (lit@[j] as u32),
        decreases lit@.len() - i,
    {
        let a = v[lo + i];
        let b = lit[i];
        assert(t[i as int] == a);
        let au = (a as u32) as u64;
        let bu = (b as u32) as u64;
        if !(a == b || au + 32 == bu) {
            return false;
        }
        i += 1;
    }
    true
}

/// First position in `[a, b)` holding an exponent marker, or `b`.
fn find_exp(v: &Vec<char>, a: usize, b: usize) -> (k: usize)
    requires
        a <= b <= v@.len(),
    ensures
        a <= k <= b,
        k < b ==> (v@[k as int] == 'e' || v@[k as int] == 'E'),
        forall|j: int| a <= j < k ==> !(v@[j] == 'e' || v@[j] == 'E'),
{
    let mut k = a;
    while k < b
        invariant
            a <= k <= b <= v@.len(),
            forall|j: int| a <= j < k ==> !(v@[j] == 'e' || v@[j] == 'E'),
        decreases b - k,
    {
        let c = v[k];
        if c == 'e' || c == 'E' {
            return k;
        }
        k += 1;
    }
    k
}

/// First position in `[a, b)` holding `'.'`, or `b`.
fn find_dot(v: &Vec<char>, a: usize, b: usize) -> (k: usize)
    requires
        a <= b <= v@.len(),
    ensures
        a <= k <= b,
        k < b ==> v@[k as int] == '.',
        forall|j: int| a <= j < k ==> v@[j] != '.',
{
    let mut k = a;
    while k < b
        invariant
            a <= k <= b <= v@.len(),
            forall|j: int| a <= j < k ==> v@[j] != '.',
        decreases b - k,
    {
        if v[k] == '.' {
            return k;
        }
        k += 1;
    }
    k
}

/// Whether the characters of `v` in `[a, b)` are all decimal digits.
fn digits_in(v: &Vec<char>, a: usize, b: usize) -> (r: bool)
    requires
        a <= b <= v@.len(),
    ensures
        r == all_digits(v@.subrange(a as int, b as int)),
{
    let ghost w = v@.subrange(a as int, b as int);
    let mut k = a;
    while k < b
        invariant
            a <= k <= b <= v@.len(),
            w == v@.subrange(a as int, b as int),
            forall|j: int| a <= j < k ==> is_digit(v@[j]),
        decreases b - k,
    {
        if !is_digit_char(v[k]) {
            assert(w[k - a] == v@[k as int]);
            return false;
        }
        k += 1;
    }
    assert forall|j: int| 0 <= j < w.len() implies is_digit(w[j]) by {
        assert(w[j] == v@[a + j]);
    }
    true
}

/// A sequence with a character that is neither a digit nor a dot is no
/// mantissa.
proof fn lemma_not_mantissa(m: Seq<char>, k: int)
    requires
        0 <= k < m.len(),
        !is_digit(m[k]),
        m[k] != '.',
    ensures
        !is_mantissa(m),
{
    assert(!all_digits(m));
    assert forall|d: int|
        !(0 <= d < m.len() && m[d] == '.' && m.len() > 1
            && (forall|j: int| 0 <= j < d ==> is_digit(m[j]))
            && (forall|j: int| d < j < m.len() ==> is_digit(m[j]))) by {
        if 0 <= d < m.len() && m[d] == '.' {
            if k < d {
                assert(!(forall|j: int| 0 <= j < d ==> is_digit(m[j])));
            } else if k > d {
                assert(!(forall|j: int| d < j < m.len() ==> is_digit(m[j])));
            }
        }
    }
}

/// With the position of the first dot known, a mantissa check reduces
/// to two digit runs.
proof fn lemma_mantissa_split(m: Seq<char>, dd: int)
    requires
        0 <= dd < m.len(),
        m[dd] == '.',
        forall|j: int| 0 <= j < dd ==> m[j] != '.',
    ensures
        is_mantissa(m)
            == (m.len() > 1 && all_digits(m.take(dd)) && all_digits(m.skip(dd + 1))),
{
    assert(!is_digit(m[dd]));
    assert(!all_digits(m));
    if m.len() > 1 && all_digits(m.take(dd)) && all_digits(m.skip(dd + 1)) {
        assert forall|j: int| 0 <= j < dd implies is_digit(m[j]) by {
            assert(m.take(dd)[j] == m[j]);
        }
        assert forall|j: int| dd < j < m.len() implies is_digit(m[j]) by {
            assert(m.skip(dd + 1)[j - dd - 1] == m[j]);
        }
        assert(is_mantissa(m));
    }
    if is_mantissa(m) {
        let d = choose|d: int|
            0 <= d < m.len() && m[d] == '.' && m.len() > 1
                && (forall|j: int| 0 <= j < d ==> is_digit(m[j]))
                && (forall|j: int| d < j < m.len() ==> is_digit(m[j]));
        assert(d >= dd);
        assert(d <= dd) by {
            if d > dd {
                assert(is_digit(m[dd]));
            }
        }
        assert forall|j: int| 0 <= j < m.take(dd).len() implies is_digit(m.take(dd)[j]) by {
            assert(m.take(dd)[j] == m[j]);
        }
        assert forall|j: int| 0 <= j < m.skip(dd + 1).len()
            implies is_digit(#[trigger] m.skip(dd + 1)[j]) by {
            assert(m.skip(dd + 1)[j] == m[j + dd + 1]);
        }
    }
}

/// Without any dot, a mantissa check is a single digit run.
proof fn lemma_mantissa_nodot(m: Seq<char>)
    requires
        forall|j: int| 0 <= j < m.len() ==> m[j] != '.',
    ensures
        is_mantissa(m) == (m.len() > 0 && all_digits(m)),
{
}

/// With the position of the first exponent marker known, the number
/// check splits into a mantissa and an integer exponent.
proof fn lemma_number_split(t: Seq<char>, ee: int)
    requires
        0 <= ee < t.len(),
        t[ee] == 'e' || t[ee] == 'E',
        forall|j: int| 0 <= j < ee ==> !(t[j] == 'e' || t[j] == 'E'),
    ensures
        is_number_text(t) == (is_mantissa(t.take(ee)) && is_int_text(t.skip(ee + 1))),
{
    assert(!is_digit(t[ee]) && t[ee] != '.');
    lemma_not_mantissa(t, ee);
    if is_mantissa(t.take(ee)) && is_int_text(t.skip(ee + 1)) {
        assert(is_number_text(t));
    }
    if is_number_text(t) {
        let e2 = choose|e2: int|
            0 <= e2 < t.len() && (t[e2] == 'e' || t[e2] == 'E')
                && is_mantissa(t.take(e2)) && is_int_text(t.skip(e2 + 1));
        assert(e2 >= ee);
        assert(e2 <= ee) by {
            if e2 > ee {
                assert(t.take(e2)[ee] == t[ee]);
                lemma_not_mantissa(t.take(e2), ee);
            }
        }
    }
}

/// Without any exponent marker, the number check is the mantissa check.
proof fn lemma_number_nomark(t: Seq<char>)
    requires
        forall|j: int| 0 <= j < t.len() ==> !(t[j] == 'e' || t[j] == 'E'),
    ensures
        is_number_text(t) == is_mantissa(t),
{
}

/// Whether `s` is in the grammar `f32::from_str` accepts. The value is
/// never computed; callers keep the text.
#[verifier::rlimit(60)]
pub fn is_float_literal(s: &str) -> (r: bool)
    ensures
        r == is_float_text(s@),
{
    let v = crate::text::str_chars(s);
    let n = v.len();
    let mut lo: usize = 0;
    if n > 0 && (v[0] == '+' || v[0] == '-') {
        lo = 1;
    }
    let ghost t = int_digits(s@);
    assert(t =~= v@.skip(lo as int));

    let mut inf: Vec<char> = Vec::new();
    inf.push('i');
    inf.push('n');
    inf.push('f');
    assert(inf@ =~= seq!['i', 'n', 'f']);
    let mut infinity: Vec<char> = Vec::new();
    infinity.push('i');
    infinity.push('n');
    infinity.push('f');
    infinity.push('i');
    infinity.push('n');
    infinity.push('i');
    infinity.push('t');
    infinity.push('y');
    assert(infinity@ =~= seq!['i', 'n', 'f', 'i', 'n', 'i', 't', 'y']);
    let mut nan: Vec<char> = Vec::new();
    nan.push('n');
    nan.push('a');
    nan.push('n');
    assert(nan@ =~= seq!['n', 'a', 'n']);
    if tail_matches_ci(&v, lo, &inf) || tail_matches_ci(&v, lo, &infinity)
        || tail_matches_ci(&v, lo, &nan) {
        return true;
    }
    assert(!is_inf_nan(t));

    let e = find_exp(&v, lo, n);
    let d = find_dot(&v, lo, e);
    let ghost m = t.take(e - lo);
    assert(m =~= v@.subrange(lo as int, e as int));

    let mant_ok = if d == e {
        let ok = e > lo && digits_in(&v, lo, e);
        proof {
            assert forall|j: int| 0 <= j < m.len() implies m[j] != '.' by {
                assert(m[j] == v@[lo + j]);
            }
            lemma_mantissa_nodot(m);
            if ok {
                assert(v@.subrange(lo as int, e as int) == m);
            }
            assert(ok == is_mantissa(m));
        }
        ok
    } else {
        let left = digits_in(&v, lo, d);
        let right = digits_in(&v, d + 1, e);
        let ok = e - lo > 1 && left && right;
        proof {
            let dd = d - lo;
            assert(m[dd] == v@[d as int]);
            assert forall|j: int| 0 <= j < dd implies m[j] != '.' by {
                assert(m[j] == v@[lo + j]);
            }
            lemma_mantissa_split(m, dd);
            assert(m.take(dd) =~= v@.subrange(lo as int, d as int));
            assert(m.skip(dd + 1) =~= v@.subrange(d as int + 1, e as int));
            assert(ok == is_mantissa(m));
        }
        ok
    };

    let exp_ok = if e == n {
        true
    } else {
        let mut x = e + 1;
        if x < n && (v[x] == '+' || v[x] == '-') {
            x += 1;
        }
        let ghost xp = t.skip(e - lo + 1);
        assert(xp =~= v@.subrange(e as int + 1, n as int));
        let ok = x < n && digits_in(&v, x, n);
        proof {
            assert(int_digits(xp) =~= v@.subrange(x as int, n as int));
            assert(ok == is_int_text(xp));
        }
        ok
    };

    let res = mant_ok && exp_ok;
    proof {
        if e == n {
            assert(m =~= t);
            assert forall|j: int| 0 <= j < t.len()
                implies !(t[j] == 'e' || t[j] == 'E') by {
                assert(t[j] == v@[lo + j]);
            }
            lemma_number_nomark(t);
        } else {
            let ee = e - lo;
            assert(t[ee] == v@[e as int]);
            assert forall|j: int| 0 <= j < ee
                implies !(t[j] == 'e' || t[j] == 'E') by {
                assert(t[j] == v@[lo + j]);
            }
            lemma_number_split(t, ee);
            assert(t.take(ee) == m);
        }
    }
    res
}

} // verus!
