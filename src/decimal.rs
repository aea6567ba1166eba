//! Decimal text for unsigned integers and for fixed-point values with
//! eight decimal places, together with the matching parsers.
use vstd::prelude::*;
use vstd::arithmetic::div_mod::lemma_mod_breakdown;
use crate::record::{is_special, plain_field};

verus! {

/// Fixed-point values count units of `10^-8`.
pub const SCALE: i64 = 100_000_000;

/// Number of decimal places in the text of a fixed-point value.
pub const FRACTION_DIGITS: u64 = 8;

pub open spec fn pow10(k: nat) -> nat
    decreases k,
{
    if k == 0 { 1 } else { 10 * pow10((k - 1) as nat) }
}

pub open spec fn digit_char(d: nat) -> u8 {
    (48 + d) as u8
}

pub open spec fn is_digit(c: u8) -> bool {
    48 <= c <= 57
}

pub open spec fn all_digits(s: Seq<u8>) -> bool {
    forall|i: int| 0 <= i < s.len() ==> #[trigger] is_digit(s[i])
}

/// Shortest decimal text of `n`.
pub open spec fn dec_text(n: nat) -> Seq<u8>
    decreases n,
{
    if n < 10 {
        seq![digit_char(n)]
    } else {
        dec_text(n / 10).push(digit_char(n % 10))
    }
}

/// The last `k` decimal digits of `n`, with leading zeros.
pub open spec fn padded_text(n: nat, k: nat) -> Seq<u8>
    decreases k,
{
    if k == 0 {
        seq![]
    } else {
        padded_text(n / 10, (k - 1) as nat).push(digit_char(n % 10))
    }
}

pub open spec fn abs(t: int) -> nat {
    if t < 0 { (-t) as nat } else { t as nat }
}

/// Text of a fixed-point value: an optional minus sign, the whole part,
/// a point and exactly eight fraction digits.
pub open spec fn fixed_text(t: int) -> Seq<u8> {
    let a = abs(t);
    let sign: Seq<u8> = if t < 0 { seq![45u8] } else { seq![] };
    sign + dec_text(a / (SCALE as nat)) + seq![46u8] + padded_text(a % (SCALE as nat), 8)
}

/// Value of a string of decimal digits.
pub open spec fn digits_value(s: Seq<u8>) -> nat
    decreases s.len(),
{
    if s.len() == 0 {
        0
    } else {
        digits_value(s.drop_last()) * 10 + (s.last() - 48) as nat
    }
}

/// An unsigned integer of at most twenty digits that fits in `u64`.
pub open spec fn parse_u64_spec(s: Seq<u8>) -> Option<u64> {
    if 1 <= s.len() <= 20 && all_digits(s) && digits_value(s) <= u64::MAX {
        Some(digits_value(s) as u64)
    } else {
        None
    }
}

/// A fixed-point value written as `fixed_text` writes it, that fits in `i64`.
pub open spec fn parse_fixed_spec(s: Seq<u8>) -> Option<i64> {
    let neg = s.len() > 0 && s[0] == 45u8;
    let body = if neg { s.skip(1) } else { s };
    let n = body.len();
    if n < 10 || body[n - 9] != 46u8 {
        None
    } else {
        let frac = body.skip(n - 8);
        match (parse_u64_spec(body.take(n - 9)), parse_u64_spec(frac)) {
            (Some(w), Some(f)) => {
                let v = w * SCALE + f;
                let signed = if neg { -v } else { v };
                if i64::MIN <= signed <= i64::MAX {
                    Some(signed as i64)
                } else {
                    None
                }
            },
            _ => None,
        }
    }
}

proof fn lemma_dec_text(n: nat)
    ensures
        all_digits(dec_text(n)),
        digits_value(dec_text(n)) == n,
        1 <= dec_text(n).len(),
        n < pow10(dec_text(n).len() as nat),
        dec_text(n).len() > 1 ==> pow10((dec_text(n).len() - 1) as nat) <= n,
    decreases n,
{
    if n >= 10 {
        lemma_dec_text(n / 10);
        let s = dec_text(n);
        assert(s.drop_last() == dec_text(n / 10));
        assert(forall|i: int| 0 <= i < s.len() - 1 ==> s[i] == dec_text(n / 10)[i]);
        let k = dec_text(n / 10).len();
        assert(pow10(k as nat + 1) == 10 * pow10(k as nat));
        let p = pow10(k as nat);
        let q = n / 10;
        assert(n == q * 10 + n % 10) by (nonlinear_arith)
            requires
                q == n / 10,
        ;
        assert(is_digit(s[s.len() - 1]));
        assert(s.last() == digit_char(n % 10));
        assert((s.last() - 48) as nat == n % 10);
        assert(digits_value(s) == digits_value(s.drop_last()) * 10 + (s.last() - 48) as nat);
        assert(q < p ==> n < 10 * p) by (nonlinear_arith)
            requires
                n == q * 10 + n % 10,
                n % 10 < 10,
        ;
        if k > 1 {
            assert(pow10(k as nat) == 10 * pow10((k - 1) as nat));
        }
        if k == 1 {
            reveal_with_fuel(pow10, 2);
        }
    } else {
        assert(dec_text(n).drop_last() =~= Seq::<u8>::empty());
        assert(is_digit(dec_text(n)[0]));
        assert(digits_value(dec_text(n)) == digits_value(dec_text(n).drop_last()) * 10 + (dec_text(n).last() - 48) as nat);
        reveal_with_fuel(pow10, 2);
    }
}

proof fn lemma_padded_text(n: nat, k: nat)
    ensures
        all_digits(padded_text(n, k)),
        padded_text(n, k).len() == k,
        digits_value(padded_text(n, k)) == n % pow10(k),
    decreases k,
{
    if k > 0 {
        lemma_padded_text(n / 10, (k - 1) as nat);
        let s = padded_text(n, k);
        assert(s.drop_last() == padded_text(n / 10, (k - 1) as nat));
        assert(forall|i: int| 0 <= i < s.len() - 1 ==> s[i] == padded_text(n / 10, (k - 1) as nat)[i]);
        lemma_pow10_pos((k - 1) as nat);
        lemma_mod_breakdown(n as int, 10, pow10((k - 1) as nat) as int);
        let m = pow10((k - 1) as nat);
        assert(10 * ((n / 10) % m) == ((n / 10) % m) * 10) by (nonlinear_arith);
    }
}

proof fn lemma_pow10_pos(k: nat)
    ensures
        pow10(k) > 0,
    decreases k,
{
    if k > 0 {
        lemma_pow10_pos((k - 1) as nat);
    }
}

proof fn lemma_pow10_values()
    ensures
        pow10(8) == 100_000_000,
        pow10(20) == 100_000_000_000_000_000_000,
{
    reveal_with_fuel(pow10, 21);
}

/// Parsing the decimal text of a `u64` gives it back.
pub proof fn lemma_u64_round_trip(n: u64)
    ensures
        parse_u64_spec(dec_text(n as nat)) == Some(n),
{
    lemma_dec_text(n as nat);
    lemma_pow10_values();
    let k = dec_text(n as nat).len();
    if k > 20 {
        lemma_pow10_mono(20, (k - 1) as nat);
    }
}

proof fn lemma_pow10_mono(a: nat, b: nat)
    requires
        a <= b,
    ensures
        pow10(a) <= pow10(b),
    decreases b,
{
    if a < b {
        lemma_pow10_mono(a, (b - 1) as nat);
        lemma_pow10_pos((b - 1) as nat);
    }
}

/// Parsing the text of a fixed-point value gives it back.
pub proof fn lemma_fixed_round_trip(t: i64)
    ensures
        parse_fixed_spec(fixed_text(t as int)) == Some(t),
{
    let a = abs(t as int);
    let w = a / (SCALE as nat);
    let f = a % (SCALE as nat);
    lemma_dec_text(w);
    lemma_padded_text(f, 8);
    lemma_pow10_values();
    lemma_u64_round_trip(w as u64);
    let s = fixed_text(t as int);
    let body = dec_text(w) + seq![46u8] + padded_text(f, 8);
    let neg = s.len() > 0 && s[0] == 45u8;
    if t < 0 {
        assert(s == seq![45u8] + body);
        assert(s.skip(1) =~= body);
    } else {
        assert(s =~= body);
        assert(is_digit(dec_text(w)[0]));
    }
    let n = body.len();
    assert(body.take(n - 9) =~= dec_text(w));
    assert(body.skip(n - 8) =~= padded_text(f, 8));
    assert(body[n - 9] == 46u8);
    assert(a == w * (SCALE as nat) + f) by (nonlinear_arith)
        requires
            w == a / (SCALE as nat),
            f == a % (SCALE as nat),
            SCALE == 100_000_000,
    ;
}

/// Appends the decimal text of `n`.
pub fn push_dec(out: &mut Vec<u8>, n: u64)
    ensures
        final(out)@ == old(out)@ + dec_text(n as nat),
    decreases n,
{
    if n >= 10 {
        push_dec(out, n / 10);
    }
    let d: u8 = (n % 10) as u8;
    out.push(48u8 + d);
    proof {
        if n >= 10 {
            assert(dec_text(n as nat) == dec_text((n / 10) as nat).push(digit_char((n % 10) as nat)));
        }
        assert(final(out)@ =~= old(out)@ + dec_text(n as nat));
    }
}

/// Appends the last `k` decimal digits of `n`, with leading zeros.
pub fn push_padded(out: &mut Vec<u8>, n: u64, k: u64)
    ensures
        final(out)@ == old(out)@ + padded_text(n as nat, k as nat),
    decreases k,
{
    if k > 0 {
        push_padded(out, n / 10, k - 1);
        let d: u8 = (n % 10) as u8;
        out.push(48u8 + d);
        proof {
            assert(final(out)@ =~= old(out)@ + padded_text(n as nat, k as nat));
        }
    } else {
        proof {
            assert(final(out)@ =~= old(out)@ + padded_text(n as nat, k as nat));
        }
    }
}

/// Decimal text of `n`.
pub fn format_u64(n: u64) -> (r: Vec<u8>)
    ensures
        r@ == dec_text(n as nat),
{
    let mut out: Vec<u8> = Vec::new();
    push_dec(&mut out, n);
    proof {
        assert(out@ =~= dec_text(n as nat));
    }
    out
}

/// Text of the fixed-point value `t`, with eight decimal places.
pub fn format_fixed(t: i64) -> (r: Vec<u8>)
    ensures
        r@ == fixed_text(t as int),
{
    let mut out: Vec<u8> = Vec::new();
    let a: u64 = if t < 0 {
        out.push(45u8);
        (-(t as i128)) as u64
    } else {
        t as u64
    };
    assert(a as nat == abs(t as int));
    push_dec(&mut out, a / (SCALE as u64));
    out.push(46u8);
    push_padded(&mut out, a % (SCALE as u64), FRACTION_DIGITS);
    proof {
        assert(out@ =~= fixed_text(t as int));
    }
    out
}

/// Parses `s[lo..hi]` as an unsigned integer of at most twenty digits.
pub fn parse_u64(s: &Vec<u8>, lo: usize, hi: usize) -> (r: Option<u64>)
    requires
        lo <= hi <= s@.len(),
    ensures
        r == parse_u64_spec(s@.subrange(lo as int, hi as int)),
{
    if hi - lo < 1 || hi - lo > 20 {
        return None;
    }
    let mut acc: u128 = 0;
    let mut i: usize = lo;
    proof {
        lemma_pow10_values();
        assert(s@.subrange(lo as int, lo as int) =~= Seq::<u8>::empty());
    }
    while i < hi
        invariant
            lo <= i <= hi <= s@.len(),
            hi - lo <= 20,
            all_digits(s@.subrange(lo as int, i as int)),
            acc as nat == digits_value(s@.subrange(lo as int, i as int)),
            acc < pow10((i - lo) as nat),
            pow10(20) == 100_000_000_000_000_000_000,
        decreases hi - i,
    {
        let c = s[i];
        if c < 48 || c > 57 {
            assert(!is_digit(s@.subrange(lo as int, hi as int)[i - lo]));
            return None;
        }
        proof {
            let prev = s@.subrange(lo as int, i as int);
            let next = s@.subrange(lo as int, i + 1);
            assert(next.drop_last() =~= prev);
            assert(next.last() == c);
            assert(forall|j: int| 0 <= j < next.len() ==> next[j] == (if j < prev.len() { prev[j] } else { c }));
            lemma_pow10_mono((i + 1 - lo) as nat, 20);
            assert(pow10((i + 1 - lo) as nat) == 10 * pow10((i - lo) as nat));
            assert(acc * 10 + 9 < 10 * pow10((i - lo) as nat)) by (nonlinear_arith)
                requires
                    acc < pow10((i - lo) as nat),
            ;
        }
        acc = acc * 10 + (c - 48) as u128;
        i = i + 1;
    }
    assert(s@.subrange(lo as int, i as int) == s@.subrange(lo as int, hi as int));
    if acc > u64::MAX as u128 {
        None
    } else {
        Some(acc as u64)
    }
}

/// Parses `s[lo..hi]` as a fixed-point value with eight decimal places.
pub fn parse_fixed(s: &Vec<u8>, lo: usize, hi: usize) -> (r: Option<i64>)
    requires
        lo <= hi <= s@.len(),
    ensures
        r == parse_fixed_spec(s@.subrange(lo as int, hi as int)),
{
    let ghost sub = s@.subrange(lo as int, hi as int);
    let neg = hi > lo && s[lo] == 45u8;
    let blo: usize = if neg { lo + 1 } else { lo };
    let ghost body = if neg { sub.skip(1) } else { sub };
    assert(body =~= s@.subrange(blo as int, hi as int));
    if hi - blo < 10 || s[hi - 9] != 46u8 {
        return None;
    }
    let whole = parse_u64(s, blo, hi - 9);
    let frac = parse_u64(s, hi - 8, hi);
    assert(body.take(body.len() - 9) =~= s@.subrange(blo as int, hi - 9));
    assert(body.skip(body.len() - 8) =~= s@.subrange(hi - 8, hi as int));
    match (whole, frac) {
        (Some(w), Some(f)) => {
            let v: i128 = (w as i128) * (SCALE as i128) + (f as i128);
            let signed: i128 = if neg { -v } else { v };
            if signed < i64::MIN as i128 || signed > i64::MAX as i128 {
                None
            } else {
                Some(signed as i64)
            }
        },
        _ => None,
    }
}

/// Decimal text of a signed integer.
pub open spec fn int_text(i: int) -> Seq<u8> {
    if i < 0 {
        seq![45u8] + dec_text(abs(i))
    } else {
        dec_text(i as nat)
    }
}

/// Appends the decimal text of the signed integer `i`.
pub fn push_int(out: &mut Vec<u8>, i: i64)
    ensures
        final(out)@ == old(out)@ + int_text(i as int),
{
    if i < 0 {
        out.push(45u8);
        let a: u64 = (-(i as i128)) as u64;
        push_dec(out, a);
        proof {
            assert(final(out)@ =~= old(out)@ + int_text(i as int));
        }
    } else {
        push_dec(out, i as u64);
    }
}

/// Decimal text of the signed integer `i`.
pub fn format_int(i: i64) -> (r: Vec<u8>)
    ensures
        r@ == int_text(i as int),
{
    let mut out: Vec<u8> = Vec::new();
    push_int(&mut out, i);
    proof {
        assert(out@ =~= int_text(i as int));
    }
    out
}

proof fn lemma_digits_plain(s: Seq<u8>)
    requires
        all_digits(s),
    ensures
        plain_field(s),
{
    assert forall|i: int| 0 <= i < s.len() implies !#[trigger] is_special(s[i]) by {
        assert(is_digit(s[i]));
    }
}

/// Numeric text never needs quoting in a record.
pub proof fn lemma_numeric_plain(n: nat, i: int, t: int)
    ensures
        plain_field(dec_text(n)),
        plain_field(int_text(i)),
        plain_field(fixed_text(t)),
        dec_text(n).len() >= 1,
{
    lemma_dec_text(n);
    lemma_digits_plain(dec_text(n));
    lemma_dec_text(abs(i));
    lemma_digits_plain(dec_text(abs(i)));
    let a = abs(t);
    lemma_dec_text(a / (SCALE as nat));
    lemma_digits_plain(dec_text(a / (SCALE as nat)));
    lemma_padded_text(a % (SCALE as nat), 8);
    lemma_digits_plain(padded_text(a % (SCALE as nat), 8));
    let ft = fixed_text(t);
    assert forall|k: int| 0 <= k < ft.len() implies !#[trigger] is_special(ft[k]) by {
        let sign: Seq<u8> = if t < 0 { seq![45u8] } else { seq![] };
        let w = dec_text(a / (SCALE as nat));
        let p = padded_text(a % (SCALE as nat), 8);
        assert(ft == sign + w + seq![46u8] + p);
        if k < sign.len() {
        } else if k < sign.len() + w.len() {
            assert(ft[k] == w[k - sign.len()]);
        } else if k == sign.len() + w.len() {
        } else {
            assert(ft[k] == p[k - sign.len() - w.len() - 1]);
        }
    }
    let it = int_text(i);
    assert forall|k: int| 0 <= k < it.len() implies !#[trigger] is_special(it[k]) by {
        if i < 0 && k > 0 {
            assert(it[k] == dec_text(abs(i))[k - 1]);
        }
        if i >= 0 {
            assert(abs(i) == i);
        }
    }
}

/// A signed integer written as `int_text` writes it, that fits in `i32`.
pub open spec fn parse_i32_spec(s: Seq<u8>) -> Option<i32> {
    let neg = s.len() > 0 && s[0] == 45u8;
    let digits = if neg { s.skip(1) } else { s };
    match parse_u64_spec(digits) {
        Some(v) => {
            let signed = if neg { -v } else { v as int };
            if i32::MIN <= signed <= i32::MAX {
                Some(signed as i32)
            } else {
                None
            }
        },
        None => None,
    }
}

/// Parsing the text of an `i32` gives it back.
pub proof fn lemma_i32_round_trip(i: i32)
    ensures
        parse_i32_spec(int_text(i as int)) == Some(i),
{
    let a = abs(i as int);
    lemma_dec_text(a);
    lemma_u64_round_trip(a as u64);
    let s = int_text(i as int);
    if i < 0 {
        assert(s.skip(1) =~= dec_text(a));
    } else {
        assert(is_digit(dec_text(a)[0]));
    }
}

/// Parses `s[lo..hi]` as a signed integer that fits in `i32`.
pub fn parse_i32(s: &Vec<u8>, lo: usize, hi: usize) -> (r: Option<i32>)
    requires
        lo <= hi <= s@.len(),
    ensures
        r == parse_i32_spec(s@.subrange(lo as int, hi as int)),
{
    let ghost sub = s@.subrange(lo as int, hi as int);
    let neg = hi > lo && s[lo] == 45u8;
    let dlo: usize = if neg { lo + 1 } else { lo };
    assert((if neg { sub.skip(1) } else { sub }) =~= s@.subrange(dlo as int, hi as int));
    match parse_u64(s, dlo, hi) {
        Some(v) => {
            let signed: i128 = if neg { -(v as i128) } else { v as i128 };
            if signed < i32::MIN as i128 || signed > i32::MAX as i128 {
                None
            } else {
                Some(signed as i32)
            }
        },
        None => None,
    }
}

} // verus!
