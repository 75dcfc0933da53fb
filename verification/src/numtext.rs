//! Decimal-digit arithmetic on character sequences.
//!
//! The decoders in this crate read numbers out of attribute text and the
//! encoders print them back.  Everything here is ordinary verified code: the
//! specification functions give the mathematical meaning of a digit string and
//! the executable functions are proved against them.

use vstd::prelude::*;
use vstd::arithmetic::div_mod::*;
use vstd::arithmetic::mul::*;

verus! {

pub open spec fn is_digit(c: char) -> bool {
    48 <= c as int && c as int <= 57
}

pub open spec fn digit_val(c: char) -> int {
    c as int - 48
}

pub open spec fn digit_char(d: int) -> char {
    if d == 0 {
        '0'
    } else if d == 1 {
        '1'
    } else if d == 2 {
        '2'
    } else if d == 3 {
        '3'
    } else if d == 4 {
        '4'
    } else if d == 5 {
        '5'
    } else if d == 6 {
        '6'
    } else if d == 7 {
        '7'
    } else if d == 8 {
        '8'
    } else {
        '9'
    }
}

pub open spec fn all_digits(s: Seq<char>) -> bool {
    forall|i: int| 0 <= i < s.len() ==> is_digit(#[trigger] s[i])
}

/// Value of a digit string, most significant digit first.
pub open spec fn dec_val(s: Seq<char>) -> int
    decreases s.len(),
{
    if s.len() == 0 {
        0
    } else {
        dec_val(s.drop_last()) * 10 + digit_val(s.last())
    }
}

pub open spec fn pow10(w: int) -> int
    decreases w,
{
    if w <= 0 {
        1
    } else {
        10 * pow10(w - 1)
    }
}

/// The digits of a non-negative number, no leading zeros except for zero itself.
pub open spec fn dec_str(n: int) -> Seq<char>
    decreases n,
{
    if n < 10 {
        seq![digit_char(n)]
    } else {
        dec_str(n / 10).push(digit_char(n % 10))
    }
}

/// The low `w` digits of a non-negative number, zero padded to exactly `w` characters.
pub open spec fn dec_str_pad(n: int, w: int) -> Seq<char>
    decreases w,
{
    if w <= 0 {
        Seq::empty()
    } else {
        dec_str_pad(n / 10, w - 1).push(digit_char(n % 10))
    }
}

pub proof fn lemma_digit_char_val(d: int)
    requires
        0 <= d < 10,
    ensures
        is_digit(digit_char(d)),
        digit_val(digit_char(d)) == d,
{
}

pub proof fn lemma_dec_val_bounds(s: Seq<char>)
    requires
        all_digits(s),
    ensures
        0 <= dec_val(s) < pow10(s.len() as int),
    decreases s.len(),
{
    if s.len() > 0 {
        lemma_dec_val_bounds(s.drop_last());
        assert(is_digit(s.last()));
    }
}

pub proof fn lemma_pow10_pos(w: int)
    ensures
        pow10(w) >= 1,
    decreases w,
{
    if w > 0 {
        lemma_pow10_pos(w - 1);
    }
}

/// Reading one more digit multiplies the accumulated value by ten.
pub proof fn lemma_dec_val_step(s: Seq<char>, i: int)
    requires
        0 <= i < s.len(),
    ensures
        dec_val(s.take(i + 1)) == dec_val(s.take(i)) * 10 + digit_val(s[i]),
{
    assert(s.take(i + 1).drop_last() =~= s.take(i));
    assert(s.take(i + 1).last() == s[i]);
}

pub proof fn lemma_dec_val_prefix_le(s: Seq<char>, i: int)
    requires
        all_digits(s),
        0 <= i <= s.len(),
    ensures
        0 <= dec_val(s.take(i)) <= dec_val(s),
    decreases s.len() - i,
{
    if i == s.len() {
        assert(s.take(i) =~= s);
        lemma_dec_val_bounds(s);
        lemma_pow10_pos(s.len() as int);
    } else {
        lemma_dec_val_prefix_le(s, i + 1);
        lemma_dec_val_step(s, i);
        lemma_dec_val_bounds(s.take(i));
        lemma_pow10_pos(i);
        assert(is_digit(s[i]));
    }
}

pub proof fn lemma_dec_str(n: int)
    requires
        n >= 0,
    ensures
        all_digits(dec_str(n)),
        dec_val(dec_str(n)) == n,
        dec_str(n).len() >= 1,
    decreases n,
{
    if n < 10 {
        lemma_digit_char_val(n);
        assert(dec_str(n) == seq![digit_char(n)]);
        assert(dec_str(n).drop_last() =~= Seq::<char>::empty());
        assert(dec_str(n).last() == digit_char(n));
        assert(dec_val(dec_str(n)) == dec_val(Seq::<char>::empty()) * 10 + digit_val(digit_char(n)));
    } else {
        lemma_dec_str(n / 10);
        lemma_digit_char_val(n % 10);
        assert(dec_str(n).drop_last() =~= dec_str(n / 10));
        assert(dec_str(n).last() == digit_char(n % 10));
        assert(dec_val(dec_str(n)) == (n / 10) * 10 + n % 10);
        lemma_fundamental_div_mod(n, 10);
    }
}

pub proof fn lemma_dec_str_pad(n: int, w: int)
    requires
        n >= 0,
        w >= 0,
    ensures
        all_digits(dec_str_pad(n, w)),
        dec_str_pad(n, w).len() == w,
        dec_val(dec_str_pad(n, w)) == n % pow10(w),
    decreases w,
{
    if w == 0 {
        lemma_mod_multiples_basic(n, 1int);
    } else {
        lemma_dec_str_pad(n / 10, w - 1);
        lemma_digit_char_val(n % 10);
        assert(dec_str_pad(n, w).drop_last() =~= dec_str_pad(n / 10, w - 1));
        // n % 10^w == ((n / 10) % 10^(w-1)) * 10 + n % 10
        lemma_pow10_pos(w - 1);
        lemma_mod_breakdown(n, 10, pow10(w - 1));
        assert(pow10(w) == 10 * pow10(w - 1));
    }
}

pub proof fn lemma_dec_str_pad_exact(n: int, w: int)
    requires
        0 <= n < pow10(w),
        w >= 0,
    ensures
        all_digits(dec_str_pad(n, w)),
        dec_str_pad(n, w).len() == w,
        dec_val(dec_str_pad(n, w)) == n,
    decreases w,
{
    lemma_dec_str_pad(n, w);
    lemma_small_mod(n as nat, pow10(w) as nat);
}

/// Compares two string slices by their character sequences.
pub fn str_eq(a: &str, b: &str) -> (r: bool)
    ensures
        r == (a@ == b@),
{
    let sa: String = a.to_owned();
    let sb: String = b.to_owned();
    sa == sb
}

/// Appends one decimal digit character to a string.
pub fn push_digit(s: &mut String, d: u64)
    requires
        d < 10,
    ensures
        final(s)@ == old(s)@.push(digit_char(d as int)),
{
    if d == 0 {
        proof { reveal_strlit("0"); }
        s.append("0");
    } else if d == 1 {
        proof { reveal_strlit("1"); }
        s.append("1");
    } else if d == 2 {
        proof { reveal_strlit("2"); }
        s.append("2");
    } else if d == 3 {
        proof { reveal_strlit("3"); }
        s.append("3");
    } else if d == 4 {
        proof { reveal_strlit("4"); }
        s.append("4");
    } else if d == 5 {
        proof { reveal_strlit("5"); }
        s.append("5");
    } else if d == 6 {
        proof { reveal_strlit("6"); }
        s.append("6");
    } else if d == 7 {
        proof { reveal_strlit("7"); }
        s.append("7");
    } else if d == 8 {
        proof { reveal_strlit("8"); }
        s.append("8");
    } else {
        proof { reveal_strlit("9"); }
        s.append("9");
    }
    proof {
        assert(final(s)@ =~= old(s)@.push(digit_char(d as int)));
    }
}

/// Prints a number in decimal, most significant digit first.
pub fn dec_u64_string(n: u64) -> (r: String)
    ensures
        r@ == dec_str(n as int),
    decreases n,
{
    if n < 10 {
        let mut s = String::new();
        push_digit(&mut s, n);
        proof {
            assert(s@ =~= seq![digit_char(n as int)]);
        }
        s
    } else {
        let mut s = dec_u64_string(n / 10);
        push_digit(&mut s, n % 10);
        s
    }
}

/// Prints the low `w` decimal digits of a number, zero padded to width `w`.
pub fn dec_pad_string(n: u64, w: usize) -> (r: String)
    ensures
        r@ == dec_str_pad(n as int, w as int),
    decreases w,
{
    if w == 0 {
        let s = String::new();
        proof {
            assert(s@ =~= dec_str_pad(n as int, w as int));
        }
        s
    } else {
        let mut s = dec_pad_string(n / 10, w - 1);
        push_digit(&mut s, n % 10);
        s
    }
}

/// Meaning of a digit run: defined exactly when the run is non-empty, all
/// digits, and its value fits a `u64`.
pub open spec fn spec_parse_dec_u64(t: Seq<char>) -> Option<u64> {
    if t.len() > 0 && all_digits(t) && dec_val(t) <= u64::MAX {
        Some(dec_val(t) as u64)
    } else {
        None
    }
}

/// Reads the digit run `s[from..to]` as a decimal number.
pub fn parse_dec_u64(s: &str, from: usize, to: usize) -> (r: Option<u64>)
    requires
        from <= to <= s@.len(),
    ensures
        r == spec_parse_dec_u64(s@.subrange(from as int, to as int)),
{
    let ghost t = s@.subrange(from as int, to as int);
    if from == to {
        return None;
    }
    let mut acc: u64 = 0;
    let mut i: usize = from;
    while i < to
        invariant
            from <= i <= to <= s@.len(),
            t == s@.subrange(from as int, to as int),
            all_digits(t.take(i - from)),
            acc == dec_val(t.take(i - from)),
        decreases to - i,
    {
        let c = s.get_char(i);
        let v = c as u32;
        if v < 48 || v > 57 {
            proof {
                assert(t[i - from] == s@[i as int]);
                assert(!is_digit(t[i - from]));
            }
            return None;
        }
        let d = (v - 48) as u64;
        proof {
            assert(t[i - from] == s@[i as int]);
            assert(is_digit(t[i - from]));
            assert(digit_val(t[i - from]) == d);
            lemma_dec_val_step(t, i - from);
        }
        if acc > (u64::MAX - d) / 10 {
            proof {
                // the prefix up to i+1 already exceeds u64::MAX, so the whole
                // run does too
                assert(dec_val(t.take(i - from + 1)) == acc * 10 + d);
                assert(acc * 10 + d > u64::MAX) by (nonlinear_arith)
                    requires
                        acc > (u64::MAX - d) / 10,
                        0 <= d < 10,
                ;
                if all_digits(t) {
                    lemma_dec_val_prefix_le(t, i - from + 1);
                }
            }
            return None;
        }
        acc = acc * 10 + d;
        i = i + 1;
        proof {
            assert(t.take(i - from).drop_last() =~= t.take(i - 1 - from));
            assert(all_digits(t.take(i - from)));
        }
    }
    proof {
        assert(t.take(to - from) =~= t);
    }
    Some(acc)
}

/// Number of leading decimal digits of a character sequence.
pub open spec fn digits_prefix_len(s: Seq<char>) -> int
    decreases s.len(),
{
    if s.len() == 0 || !is_digit(s[0]) {
        0
    } else {
        1 + digits_prefix_len(s.drop_first())
    }
}

pub proof fn lemma_digits_prefix_len_props(s: Seq<char>)
    ensures
        0 <= digits_prefix_len(s) <= s.len(),
        forall|j: int| 0 <= j < digits_prefix_len(s) ==> is_digit(#[trigger] s[j]),
        digits_prefix_len(s) < s.len() ==> !is_digit(s[digits_prefix_len(s)]),
    decreases s.len(),
{
    if s.len() > 0 && is_digit(s[0]) {
        lemma_digits_prefix_len_props(s.drop_first());
        assert(forall|j: int|
            1 <= j < digits_prefix_len(s) ==> #[trigger] s[j] == s.drop_first()[j - 1]);
    }
}

pub proof fn lemma_digits_prefix_len_of(s: Seq<char>, k: int)
    requires
        0 <= k <= s.len(),
        forall|j: int| 0 <= j < k ==> is_digit(#[trigger] s[j]),
        k == s.len() || !is_digit(s[k]),
    ensures
        digits_prefix_len(s) == k,
    decreases k,
{
    if k == 0 {
    } else {
        assert(is_digit(s[0]));
        lemma_digits_prefix_len_of(s.drop_first(), k - 1);
    }
}

/// Case-blind equality against a lower-case letter.
pub open spec fn eq_ci(a: char, b: char) -> bool {
    a == b || a as int + 32 == b as int
}

pub open spec fn matches_ci(s: Seq<char>, t: Seq<char>) -> bool {
    s.len() == t.len() && forall|i: int| 0 <= i < s.len() ==> eq_ci(#[trigger] s[i], t[i])
}

pub open spec fn strip_sign(s: Seq<char>) -> Seq<char> {
    if s.len() > 0 && (s[0] == '+' || s[0] == '-') {
        s.drop_first()
    } else {
        s
    }
}

pub open spec fn is_f64_special(b: Seq<char>) -> bool {
    matches_ci(b, "inf"@) || matches_ci(b, "infinity"@) || matches_ci(b, "nan"@)
}

pub open spec fn is_exp_part(r: Seq<char>) -> bool {
    r.len() >= 2 && (r[0] == 'e' || r[0] == 'E') && {
        let d = strip_sign(r.drop_first());
        d.len() >= 1 && all_digits(d)
    }
}

pub open spec fn is_f64_number(b: Seq<char>) -> bool {
    let d1 = digits_prefix_len(b);
    let r1 = b.skip(d1);
    if r1.len() > 0 && r1[0] == '.' {
        let d2 = digits_prefix_len(r1.drop_first());
        let r2 = r1.drop_first().skip(d2);
        d1 + d2 >= 1 && (r2.len() == 0 || is_exp_part(r2))
    } else {
        d1 >= 1 && (r1.len() == 0 || is_exp_part(r1))
    }
}

/// The shape of a 64-bit floating-point literal: an optional sign, then one
/// of the special words `inf`, `infinity` or `nan` in any letter case, or a
/// digit string with an optional point, at least one digit, and an optional
/// exponent.
pub open spec fn is_f64_literal(s: Seq<char>) -> bool {
    let b = strip_sign(s);
    is_f64_special(b) || is_f64_number(b)
}

/// Compares `s[from..]` with a lower-case word, blind to letter case.
fn tail_matches_ci(s: &str, from: usize, n: usize, lit: &str) -> (r: bool)
    requires
        from <= n == s@.len(),
    ensures
        r == matches_ci(s@.skip(from as int), lit@),
{
    let m = lit.unicode_len();
    if n - from != m {
        return false;
    }
    let mut i: usize = 0;
    while i < m
        invariant
            0 <= i <= m == lit@.len(),
            from <= n == s@.len(),
            n - from == m,
            forall|j: int| 0 <= j < i ==> eq_ci(#[trigger] s@.skip(from as int)[j], lit@[j]),
        decreases m - i,
    {
        let a = s.get_char(from + i) as u32;
        let b = lit.get_char(i) as u32;
        if !(a == b || a + 32 == b) {
            proof {
                assert(s@.skip(from as int)[i as int] == s@[from + i]);
                assert(!eq_ci(s@.skip(from as int)[i as int], lit@[i as int]));
            }
            return false;
        }
        proof {
            assert(s@.skip(from as int)[i as int] == s@[from + i]);
        }
        i = i + 1;
    }
    true
}

/// First index at or after `from` that does not hold a decimal digit.
fn digits_run_end(s: &str, from: usize, n: usize) -> (e: usize)
    requires
        from <= n == s@.len(),
    ensures
        from <= e <= n,
        digits_prefix_len(s@.skip(from as int)) == e - from,
{
    let mut i: usize = from;
    while i < n
        invariant
            from <= i <= n == s@.len(),
            forall|j: int| from <= j < i ==> is_digit(#[trigger] s@[j]),
        decreases n - i,
    {
        let v = s.get_char(i) as u32;
        if v < 48 || v > 57 {
            proof {
                lemma_digits_prefix_len_of(
                    s@.skip(from as int),
                    i - from,
                );
            }
            return i;
        }
        i = i + 1;
    }
    proof {
        lemma_digits_prefix_len_of(s@.skip(from as int), n - from);
    }
    n
}

/// True when `s[k..]` is empty or a well-formed exponent part.
fn check_exp_or_end(s: &str, k: usize, n: usize) -> (r: bool)
    requires
        k <= n == s@.len(),
    ensures
        r == {
            let t = s@.skip(k as int);
            t.len() == 0 || is_exp_part(t)
        },
{
    let ghost t = s@.skip(k as int);
    if k == n {
        return true;
    }
    let c = s.get_char(k);
    if !(c == 'e' || c == 'E') {
        proof {
            assert(t[0] == s@[k as int]);
        }
        return false;
    }
    let j: usize = if k + 1 < n && (s.get_char(k + 1) == '+' || s.get_char(k + 1) == '-') {
        k + 2
    } else {
        k + 1
    };
    let ghost d = strip_sign(t.drop_first());
    proof {
        assert(t.drop_first() =~= s@.skip(k + 1));
        assert(d =~= s@.skip(j as int));
    }
    if j >= n {
        return false;
    }
    let e = digits_run_end(s, j, n);
    proof {
        lemma_digits_prefix_len_props(s@.skip(j as int));
        if e == n {
            assert(all_digits(d)) by {
                assert(forall|x: int|
                    0 <= x < d.len() ==> is_digit(#[trigger] d[x]));
            }
        } else {
            assert(!is_digit(d[e - j]));
        }
    }
    e == n
}

/// Checks the shape of a floating-point literal.
pub fn check_f64_literal(s: &str) -> (r: bool)
    ensures
        r == is_f64_literal(s@),
{
    let n = s.unicode_len();
    let from: usize = if n > 0 && (s.get_char(0) == '+' || s.get_char(0) == '-') {
        1
    } else {
        0
    };
    let ghost b = strip_sign(s@);
    proof {
        assert(b =~= s@.skip(from as int));
    }
    if tail_matches_ci(s, from, n, "inf") || tail_matches_ci(s, from, n, "infinity")
        || tail_matches_ci(s, from, n, "nan") {
        return true;
    }
    let e1 = digits_run_end(s, from, n);
    let ghost d1 = digits_prefix_len(b);
    let ghost r1 = b.skip(d1);
    proof {
        assert(r1 =~= s@.skip(e1 as int));
    }
    if e1 < n && s.get_char(e1) == '.' {
        proof {
            assert(r1[0] == s@[e1 as int]);
        }
        let e2 = digits_run_end(s, e1 + 1, n);
        let ghost d2 = digits_prefix_len(r1.drop_first());
        proof {
            assert(r1.drop_first() =~= s@.skip(e1 + 1));
            assert(r1.drop_first().skip(d2) =~= s@.skip(e2 as int));
        }
        if e1 - from == 0 && e2 - (e1 + 1) == 0 {
            return false;
        }
        check_exp_or_end(s, e2, n)
    } else {
        proof {
            if e1 < n {
                assert(r1[0] == s@[e1 as int]);
            }
        }
        if e1 == from {
            return false;
        }
        check_exp_or_end(s, e1, n)
    }
}

/// Meaning of `number-rows-repeated` and friends: an optional leading `+`,
/// then a non-empty digit run whose value fits a `u32`.
pub open spec fn spec_parse_u32(s: Seq<char>) -> Option<u32> {
    let t = if s.len() > 0 && s[0] == '+' {
        s.drop_first()
    } else {
        s
    };
    if t.len() > 0 && all_digits(t) && dec_val(t) <= u32::MAX {
        Some(dec_val(t) as u32)
    } else {
        None
    }
}

/// Reads a whole attribute string as an unsigned 32-bit count.
pub fn parse_u32(s: &str) -> (r: Option<u32>)
    ensures
        r == spec_parse_u32(s@),
{
    let n = s.unicode_len();
    let from: usize = if n > 0 && s.get_char(0) == '+' {
        1
    } else {
        0
    };
    let ghost t = if s@.len() > 0 && s@[0] == '+' {
        s@.drop_first()
    } else {
        s@
    };
    proof {
        assert(t =~= s@.subrange(from as int, n as int));
        if t.len() > 0 && all_digits(t) {
            lemma_dec_val_bounds(t);
        }
    }
    match parse_dec_u64(s, from, n) {
        None => None,
        Some(v) => {
            if v <= u32::MAX as u64 {
                Some(v as u32)
            } else {
                None
            }
        },
    }
}

} // verus!
