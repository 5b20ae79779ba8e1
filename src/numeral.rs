//! Numeric fields of a telemetry line: unsigned integers and decimal
//! numerals, and the rounding used to display them. Arithmetic on the
//! numerals is exact; displayed values are rounded to the nearest whole
//! number, ties to the even one.
use vstd::prelude::*;
use crate::text::{
    decimal_text, digit_char, is_first, lemma_first_unique, push_chars, push_decimal, split_once,
    split_once_at, subvec,
};

verus! {

/// Whether `c` is one of the ASCII digits.
pub open spec fn is_digit(c: char) -> bool {
    '0' <= c && c <= '9'
}

/// Whether every character of `s` is a digit.
pub open spec fn all_digits(s: Seq<char>) -> bool {
    forall|i: int| 0 <= i < s.len() ==> is_digit(s[i])
}

/// The value of the digit `c`.
pub open spec fn digit_value(c: char) -> nat {
    (c as u32 - 48) as nat
}

/// The number that a string of digits denotes (zero for the empty string).
pub open spec fn digits_value(s: Seq<char>) -> nat
    decreases s.len(),
{
    if s.len() == 0 {
        0
    } else {
        digits_value(s.drop_last()) * 10 + digit_value(s.last())
    }
}

/// A prefix of a string of digits denotes no more than the whole.
pub proof fn lemma_digits_value_prefix(s: Seq<char>, i: int)
    requires
        0 <= i <= s.len(),
    ensures
        digits_value(s.take(i)) <= digits_value(s),
    decreases s.len(),
{
    if i < s.len() {
        assert(s.drop_last().take(i) =~= s.take(i));
        lemma_digits_value_prefix(s.drop_last(), i);
    } else {
        assert(s.take(i) =~= s);
    }
}

/// What `u64`'s `from_str` accepts: an optional `+`, then one or more
/// digits whose value fits in 64 bits.
pub open spec fn u64_of(t: Seq<char>) -> Option<u64> {
    let b = if t.len() > 0 && t[0] == '+' {
        t.drop_first()
    } else {
        t
    };
    if b.len() > 0 && all_digits(b) && digits_value(b) <= u64::MAX {
        Some(digits_value(b) as u64)
    } else {
        None
    }
}

/// The value of a string of digits, if it is one and the value fits in 64
/// bits.
pub fn parse_digits(v: &Vec<char>) -> (r: Option<u64>)
    ensures
        r == (if all_digits(v@) && digits_value(v@) <= u64::MAX {
            Some(digits_value(v@) as u64)
        } else {
            None
        }),
{
    let mut acc: u64 = 0;
    let mut i: usize = 0;
    while i < v.len()
        invariant
            i <= v.len(),
            all_digits(v@.take(i as int)),
            acc as nat == digits_value(v@.take(i as int)),
        decreases v.len() - i,
    {
        let c = v[i];
        proof {
            assert(v@.take(i + 1).drop_last() =~= v@.take(i as int));
        }
        if !('0' <= c && c <= '9') {
            assert(!is_digit(v@[i as int]));
            return None;
        }
        let d: u64 = (c as u32 - 48) as u64;
        if acc > (u64::MAX - d) / 10 {
            proof {
                assert(acc * 10 + d > u64::MAX) by (nonlinear_arith)
                    requires
                        acc > (u64::MAX - d) / 10,
                        d <= 9,
                ;
                lemma_digits_value_prefix(v@, i + 1);
            }
            return None;
        }
        proof {
            assert(acc * 10 + d <= u64::MAX) by (nonlinear_arith)
                requires
                    acc <= (u64::MAX - d) / 10,
                    d <= 9,
            ;
        }
        acc = acc * 10 + d;
        i = i + 1;
        assert(all_digits(v@.take(i as int)));
    }
    assert(v@.take(v.len() as int) =~= v@);
    Some(acc)
}

/// Parses an unsigned 64-bit integer as `u64`'s `from_str` does.
pub fn parse_u64(t: &Vec<char>) -> (r: Option<u64>)
    ensures
        r == u64_of(t@),
{
    if t.len() > 0 && t[0] == '+' {
        let b = subvec(t, 1, t.len());
        assert(b@ =~= t@.drop_first());
        if b.len() == 0 {
            return None;
        }
        parse_digits(&b)
    } else {
        if t.len() == 0 {
            return None;
        }
        parse_digits(t)
    }
}

/// A decimal numeral as received: `(-1)^negative * digits / 10^scale`.
/// The sign is kept apart so that a negative zero stays negative.
#[derive(Clone, Copy, Debug, PartialEq, Eq)]
pub struct Decimal {
    pub negative: bool,
    pub digits: u64,
    pub scale: u8,
}

/// The most digits a numeral may hold after its decimal point.
pub const MAX_SCALE: u8 = 19;

impl Decimal {
    /// The scale stays within what the arithmetic below is sized for.
    pub open spec fn wf(&self) -> bool {
        self.scale <= MAX_SCALE
    }
}

/// `b` cut at its decimal point into integer and fractional digits.
pub open spec fn mantissa_parts(b: Seq<char>) -> (Seq<char>, Seq<char>) {
    match split_once(b, '.') {
        Some((i, f)) => (i, f),
        None => (b, Seq::<char>::empty()),
    }
}

/// `t` without a leading sign, and whether that sign was `-`.
pub open spec fn sign_parts(t: Seq<char>) -> (bool, Seq<char>) {
    if t.len() > 0 && t[0] == '-' {
        (true, t.drop_first())
    } else if t.len() > 0 && t[0] == '+' {
        (false, t.drop_first())
    } else {
        (false, t)
    }
}

/// The decimal numerals this library reads: an optional sign, digits,
/// and optionally a point followed by digits; at least one digit in all,
/// at most `MAX_SCALE` after the point, and a digit string whose value
/// fits in 64 bits.
pub open spec fn decimal_of(t: Seq<char>) -> Option<Decimal> {
    let (neg, b) = sign_parts(t);
    let (ip, fp) = mantissa_parts(b);
    let ds = ip + fp;
    if ds.len() > 0 && all_digits(ds) && fp.len() <= MAX_SCALE && digits_value(ds) <= u64::MAX {
        Some(Decimal { negative: neg, digits: digits_value(ds) as u64, scale: fp.len() as u8 })
    } else {
        None
    }
}

/// Parses a decimal numeral as `decimal_of` describes.
pub fn parse_decimal(t: &Vec<char>) -> (r: Option<Decimal>)
    ensures
        r == decimal_of(t@),
        r matches Some(d) ==> d.wf(),
{
    let negative = t.len() > 0 && t[0] == '-';
    let body = if t.len() > 0 && (t[0] == '-' || t[0] == '+') {
        subvec(t, 1, t.len())
    } else {
        subvec(t, 0, t.len())
    };
    assert(sign_parts(t@) == (negative, body@)) by {
        if t.len() > 0 && (t@[0] == '-' || t@[0] == '+') {
            assert(body@ =~= t@.drop_first());
        } else {
            assert(body@ =~= t@);
        }
    }
    let (mut ds, fp_len) = match split_once_at(&body, '.') {
        Some((ip, fp)) => {
            let mut ds = ip;
            push_chars(&mut ds, &fp);
            (ds, fp.len())
        },
        None => {
            let ds = body;
            (ds, 0)
        },
    };
    assert(ds@ == mantissa_parts(body@).0 + mantissa_parts(body@).1);
    assert(fp_len == mantissa_parts(body@).1.len());
    if ds.len() == 0 || fp_len > 19 {
        return None;
    }
    match parse_digits(&ds) {
        Some(digits) => Some(Decimal { negative, digits, scale: fp_len as u8 }),
        None => None,
    }
}

/// The decimal numeral of `n` has only digits, at least one, and denotes `n`.
pub proof fn lemma_decimal_text(n: nat)
    ensures
        decimal_text(n).len() >= 1,
        all_digits(decimal_text(n)),
        digits_value(decimal_text(n)) == n,
    decreases n,
{
    let t = decimal_text(n);
    assert(((n % 10 + 48) as u8 as char) as u32 == n % 10 + 48);
    assert(t.last() == digit_char(n % 10));
    assert(digit_value(t.last()) == n % 10);
    if n >= 10 {
        lemma_decimal_text(n / 10);
        assert(t.drop_last() =~= decimal_text(n / 10));
        assert(digits_value(t) == digits_value(t.drop_last()) * 10 + digit_value(t.last()));
        assert(n == (n / 10) * 10 + n % 10);
    } else {
        assert(t.drop_last() =~= Seq::<char>::empty());
        assert(digits_value(Seq::<char>::empty()) == 0);
        assert(digits_value(t) == digits_value(t.drop_last()) * 10 + digit_value(t.last()));
        assert(n % 10 == n);
    }
    assert(is_digit(t.last()));
    assert(all_digits(t)) by {
        if n >= 10 {
            assert forall|i: int| 0 <= i < t.len() implies is_digit(t[i]) by {
                if i < t.len() - 1 {
                    assert(t[i] == decimal_text(n / 10)[i]);
                }
            }
        }
    }
}

/// Zeros before a string of digits do not change its value.
pub proof fn lemma_leading_zeros(z: nat, s: Seq<char>)
    ensures
        digits_value(Seq::new(z, |i: int| '0') + s) == digits_value(s),
    decreases s.len() + z,
{
    let t = Seq::new(z, |i: int| '0') + s;
    if s.len() > 0 {
        assert(t.drop_last() =~= Seq::new(z, |i: int| '0') + s.drop_last());
        lemma_leading_zeros(z, s.drop_last());
    } else if z > 0 {
        assert(t.drop_last() =~= Seq::new((z - 1) as nat, |i: int| '0') + s);
        lemma_leading_zeros((z - 1) as nat, s);
    } else {
        assert(t =~= s);
    }
}

/// The digits of a decimal: its value's numeral, with zeros in front so that
/// at least one digit stands before the point.
pub open spec fn padded_digits(d: Decimal) -> Seq<char> {
    let t = decimal_text(d.digits as nat);
    if t.len() >= d.scale + 1 {
        t
    } else {
        Seq::new((d.scale + 1 - t.len()) as nat, |i: int| '0') + t
    }
}

/// The numeral that writes a decimal: its sign, then its digits with the
/// point before the last `scale` of them.
pub open spec fn decimal_numeral(d: Decimal) -> Seq<char> {
    let ds = padded_digits(d);
    let k = ds.len() - d.scale;
    let sign = if d.negative {
        seq!['-']
    } else {
        Seq::<char>::empty()
    };
    if d.scale == 0 {
        sign + ds
    } else {
        sign + ds.take(k) + seq!['.'] + ds.skip(k)
    }
}

/// The padded digits are digits and denote the decimal's digit value.
pub proof fn lemma_padded_digits(d: Decimal)
    ensures
        padded_digits(d).len() >= d.scale + 1,
        all_digits(padded_digits(d)),
        digits_value(padded_digits(d)) == d.digits,
{
    let t = decimal_text(d.digits as nat);
    lemma_decimal_text(d.digits as nat);
    if t.len() < d.scale + 1 {
        lemma_leading_zeros((d.scale + 1 - t.len()) as nat, t);
    }
}

/// Reading the numeral of a well-formed decimal gives the decimal back.
pub proof fn lemma_decimal_round_trip(d: Decimal)
    requires
        d.wf(),
    ensures
        decimal_of(decimal_numeral(d)) == Some(d),
        forall|i: int| 0 <= i < decimal_numeral(d).len() ==> #[trigger] decimal_numeral(d)[i] != ',',
{
    let ds = padded_digits(d);
    lemma_padded_digits(d);
    let k = ds.len() - d.scale;
    let t = decimal_numeral(d);
    let body = if d.scale == 0 {
        ds
    } else {
        ds.take(k) + seq!['.'] + ds.skip(k)
    };
    assert(t =~= if d.negative { seq!['-'] + body } else { body });
    assert(is_digit(ds[0]));
    assert(body[0] == ds[0]);
    assert(sign_parts(t) == (d.negative, body)) by {
        if d.negative {
            assert(t.drop_first() =~= body);
        }
    }
    if d.scale == 0 {
        assert(!exists|i: int| is_first(body, '.', i));
        assert(mantissa_parts(body) == (ds, Seq::<char>::empty()));
        assert(ds + Seq::<char>::empty() =~= ds);
    } else {
        assert(is_first(body, '.', k));
        let j = choose|j: int| is_first(body, '.', j);
        lemma_first_unique(body, '.', k, j);
        assert(body.take(k) =~= ds.take(k));
        assert(body.skip(k + 1) =~= ds.skip(k));
        assert(ds.take(k) + ds.skip(k) =~= ds);
    }
    assert forall|i: int| 0 <= i < t.len() implies #[trigger] t[i] != ',' by {
        if d.negative && i == 0 {
        } else {
            let bi = if d.negative { i - 1 } else { i };
            assert(t[i] == body[bi]);
            if d.scale != 0 && bi > k {
                assert(body[bi] == ds[bi - 1]);
            } else if d.scale != 0 && bi < k {
                assert(body[bi] == ds[bi]);
            }
        }
    }
}

/// The numeral of `n` is what `u64_of` reads back as `n`.
pub proof fn lemma_u64_round_trip(n: u64)
    ensures
        u64_of(decimal_text(n as nat)) == Some(n),
        forall|i: int| 0 <= i < decimal_text(n as nat).len() ==> #[trigger] decimal_text(n as nat)[i] != ',',
{
    lemma_decimal_text(n as nat);
    assert(is_digit(decimal_text(n as nat)[0]));
    assert forall|i: int| 0 <= i < decimal_text(n as nat).len() implies #[trigger] decimal_text(n as nat)[i] != ',' by {
        assert(is_digit(decimal_text(n as nat)[i]));
    }
}

/// Appends the numeral of a decimal, as `decimal_numeral` describes.
pub fn push_numeral(v: &mut Vec<char>, d: Decimal)
    requires
        d.wf(),
    ensures
        final(v)@ == old(v)@ + decimal_numeral(d),
{
    let mut text: Vec<char> = Vec::new();
    push_decimal(&mut text, d.digits as u128);
    proof {
        lemma_decimal_text(d.digits as nat);
    }
    let mut ds: Vec<char> = Vec::new();
    let width: usize = d.scale as usize + 1;
    if text.len() < width {
        let zeros: usize = width - text.len();
        let mut i: usize = 0;
        while i < zeros
            invariant
                i <= zeros,
                ds@ == Seq::new(i as nat, |j: int| '0'),
            decreases zeros - i,
        {
            ds.push('0');
            i = i + 1;
            assert(ds@ =~= Seq::new(i as nat, |j: int| '0'));
        }
    }
    push_chars(&mut ds, &text);
    assert(ds@ =~= padded_digits(d));
    if d.negative {
        v.push('-');
    }
    if d.scale == 0 {
        push_chars(v, &ds);
    } else {
        let k: usize = ds.len() - d.scale as usize;
        let head = subvec(&ds, 0, k);
        let tail = subvec(&ds, k, ds.len());
        push_chars(v, &head);
        v.push('.');
        push_chars(v, &tail);
    }
    proof {
        let sign = if d.negative { seq!['-'] } else { Seq::<char>::empty() };
        assert(v@ =~= old(v)@ + decimal_numeral(d));
    }
}

/// Ten to the power `n`.
pub open spec fn pow10(n: nat) -> nat
    decreases n,
{
    if n == 0 {
        1
    } else {
        10 * pow10((n - 1) as nat)
    }
}

/// Powers of ten grow with the exponent.
pub proof fn lemma_pow10_mono(i: nat, j: nat)
    requires
        i <= j,
    ensures
        1 <= pow10(i) <= pow10(j),
    decreases j,
{
    if j > 0 {
        if i < j {
            lemma_pow10_mono(i, (j - 1) as nat);
        } else {
            lemma_pow10_mono((j - 1) as nat, (j - 1) as nat);
        }
    }
}

/// Ten to the power `n`, for `n` up to `MAX_SCALE`.
pub fn pow10_u128(n: u8) -> (r: u128)
    requires
        n <= MAX_SCALE,
    ensures
        r as nat == pow10(n as nat),
        1 <= r <= 10000000000000000000,
{
    proof {
        lemma_pow10_mono(0, n as nat);
        reveal_with_fuel(pow10, 20);
        lemma_pow10_mono(n as nat, 19);
    }
    let mut p: u128 = 1;
    let mut i: u8 = 0;
    while i < n
        invariant
            i <= n <= MAX_SCALE,
            p as nat == pow10(i as nat),
            pow10(n as nat) <= 10000000000000000000,
        decreases n - i,
    {
        proof {
            lemma_pow10_mono((i + 1) as nat, n as nat);
        }
        p = p * 10;
        i = i + 1;
    }
    p
}

/// `n / d` rounded to the nearest integer, ties to the even one.
pub open spec fn round_half_even(n: nat, d: nat) -> nat
    recommends
        d > 0,
{
    let q = n / d;
    let r = n % d;
    if 2 * r < d {
        q
    } else if 2 * r > d {
        q + 1
    } else if q % 2 == 0 {
        q
    } else {
        q + 1
    }
}

/// Computes `round_half_even(n, d)`.
pub fn round_div(n: u128, d: u128) -> (r: u128)
    requires
        0 < d <= 100000000000000000000000000,
        n <= 100000000000000000000000000000000,
    ensures
        r as nat == round_half_even(n as nat, d as nat),
{
    let q = n / d;
    let rem = n % d;
    if 2 * rem < d {
        q
    } else if 2 * rem > d {
        q + 1
    } else if q % 2 == 0 {
        q
    } else {
        q + 1
    }
}

/// Whether the numeral denotes more than ten.
pub open spec fn exceeds_ten(x: Decimal) -> bool {
    !x.negative && x.digits > 10 * pow10(x.scale as nat)
}

/// The speed shown for an indicated airspeed: the airspeed times 1.994,
/// rounded, or zero at or below ten.
pub open spec fn speed_knots(ias: Decimal) -> nat {
    if exceeds_ten(ias) {
        round_half_even((ias.digits * 1994) as nat, pow10(ias.scale as nat) * 1000)
    } else {
        0
    }
}

/// The size of the altitude shown, in thousands of feet: the barometric
/// altitude times 3.281, divided by 1000 and rounded. Its sign is that of
/// the numeral.
pub open spec fn altitude_thousands(alt: Decimal) -> nat {
    round_half_even((alt.digits * 3281) as nat, pow10(alt.scale as nat) * 1000000)
}

/// Computes `speed_knots`.
pub fn speed_of(ias: Decimal) -> (r: u128)
    requires
        ias.wf(),
    ensures
        r as nat == speed_knots(ias),
{
    let p = pow10_u128(ias.scale);
    if !ias.negative && (ias.digits as u128) > 10 * p {
        round_div(ias.digits as u128 * 1994, p * 1000)
    } else {
        0
    }
}

/// Computes `altitude_thousands`.
pub fn altitude_of(alt: Decimal) -> (r: u128)
    requires
        alt.wf(),
    ensures
        r as nat == altitude_thousands(alt),
{
    let p = pow10_u128(alt.scale);
    round_div(alt.digits as u128 * 3281, p * 1000000)
}

/// An airspeed of ten or less shows as zero; anything above ten shows as
/// a positive speed.
pub proof fn lemma_speed_threshold(ias: Decimal)
    ensures
        !exceeds_ten(ias) ==> speed_knots(ias) == 0,
        exceeds_ten(ias) ==> speed_knots(ias) > 0,
{
    if exceeds_ten(ias) {
        let p = pow10(ias.scale as nat);
        lemma_pow10_mono(0, ias.scale as nat);
        let n: nat = (ias.digits * 1994) as nat;
        let d: nat = p * 1000;
        assert(n >= d) by (nonlinear_arith)
            requires
                ias.digits > 10 * p,
                n == ias.digits * 1994,
                d == p * 1000,
        ;
        assert(n / d >= 1) by (nonlinear_arith)
            requires
                n >= d,
                d > 0,
        ;
    }
}

} // verus!
