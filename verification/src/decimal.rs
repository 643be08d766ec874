//! Decimal codec: conversion between displayable fixed-point decimals and the
//! compact 64-bit integer storage keys used inside the book.
//!
//! A [`DisplayAmount`] is a decimal of the library's own making: a 96-bit
//! mantissa, a fractional scale of at most 28 digits, and a sign flag.  The
//! book never stores one directly; `display_to_storage` rescales it to a
//! venue's fixed scale, rounding half to even, and hands back the raw mantissa
//! as a 64-bit key, so that equal prices meet on equal keys.

use vstd::prelude::*;
use vstd::arithmetic::power::{pow, lemma_pow_adds, lemma_pow_positive, lemma_pow_increases};
use vstd::arithmetic::div_mod::lemma_fundamental_div_mod;
use vstd::arithmetic::mul::{lemma_mul_inequality, lemma_mul_is_associative};
use crate::OrderBookError;

verus! {

/// The largest fractional scale a display decimal may carry.
pub const MAX_SCALE: u32 = 28;

/// One past the largest mantissa a display decimal may carry (2^96).
pub const MANTISSA_LIMIT: u128 = 0x1000000000000000000000000;

/// One past the largest value a storage key may hold (2^64).
pub const STORAGE_LIMIT: u128 = 0x10000000000000000;

/// The compact integer form in which the book keys and stores amounts.
pub type StorageAmount = u64;

/// An arbitrary-precision decimal with a declared fractional scale.
/// The value denoted is `mantissa / 10^scale`, negated when `negative`.
#[derive(Debug, Clone, Copy, PartialEq, Eq, Structural)]
pub struct DisplayAmount {
    pub negative: bool,
    pub mantissa: u128,
    pub scale: u32,
}

/// 10 to the power `n`.
pub open spec fn pow10(n: nat) -> nat {
    pow(10, n) as nat
}

/// `m / d` rounded half to even (banker's rounding); `d` must be positive.
pub open spec fn round_half_even(m: nat, d: nat) -> nat {
    let q = m / d;
    let r = m % d;
    if 2 * r > d || (2 * r == d && q % 2 == 1) {
        (q + 1) as nat
    } else {
        q
    }
}

/// The mantissa of `m` (held at scale `from`) rewritten at scale `to`:
/// multiplied out when the scale grows, rounded half to even when it shrinks.
pub open spec fn rescale(m: nat, from: nat, to: nat) -> nat {
    if from <= to {
        m * pow10((to - from) as nat)
    } else {
        round_half_even(m, pow10((from - to) as nat))
    }
}

impl DisplayAmount {
    /// Well-formedness: the mantissa fits in 96 bits and the scale is a
    /// representable number of fractional digits.
    pub open spec fn wf(self) -> bool {
        self.mantissa < MANTISSA_LIMIT && self.scale <= MAX_SCALE
    }

    /// The magnitude of the decimal, normalized to the largest scale so that
    /// decimals of different scales can be compared exactly.
    pub open spec fn magnitude(self) -> nat {
        (self.mantissa * pow10((MAX_SCALE - self.scale) as nat)) as nat
    }

    /// The signed value of the decimal at the largest scale.
    pub open spec fn value(self) -> int {
        if self.negative {
            -(self.magnitude() as int)
        } else {
            self.magnitude() as int
        }
    }

    /// Builds a well-formed, non-negative decimal from plain parts.
    pub fn new(mantissa: u128, scale: u32) -> (r: Self)
        requires
            mantissa < MANTISSA_LIMIT,
            scale <= MAX_SCALE,
        ensures
            r == (DisplayAmount { negative: false, mantissa, scale }),
            r.wf(),
    {
        DisplayAmount { negative: false, mantissa, scale }
    }
}

/// Two decimals denote the same number.
pub open spec fn same_value(a: DisplayAmount, b: DisplayAmount) -> bool {
    a.value() == b.value()
}

proof fn lemma_pow10_pos(n: nat)
    ensures
        pow10(n) >= 1,
{
    lemma_pow_positive(10, n);
}

proof fn lemma_pow10_le_28(n: nat)
    requires
        n <= 28,
    ensures
        1 <= pow10(n) <= pow10(28),
        pow10(28) == 0x204fce5e3e25026110000000,
{
    lemma_pow10_pos(n);
    lemma_pow_increases(10, n, 28);
    reveal_with_fuel(pow, 29);
    assert(pow(10, 28) == 0x204fce5e3e25026110000000);
}

/// Executable power of ten over the scales in use.
pub fn pow10_u128(n: u32) -> (r: u128)
    requires
        n <= MAX_SCALE,
    ensures
        r == pow10(n as nat),
        1 <= r <= 0x204fce5e3e25026110000000,
{
    proof {
        lemma_pow10_le_28(n as nat);
    }
    let mut r: u128 = 1;
    let mut i: u32 = 0;
    proof {
        vstd::arithmetic::power::lemma_pow0(10);
    }
    while i < n
        invariant
            i <= n,
            n <= MAX_SCALE,
            r == pow10(i as nat),
        decreases n - i,
    {
        proof {
            lemma_pow10_le_28(i as nat);
            lemma_pow10_le_28((i + 1) as nat);
            lemma_pow_adds(10, i as nat, 1);
            vstd::arithmetic::power::lemma_pow1(10);
            lemma_pow_positive(10, i as nat);
            assert(pow(10, (i + 1) as nat) == pow(10, i as nat) * pow(10, 1));
            assert(pow10((i + 1) as nat) == pow10(i as nat) * 10);
        }
        r = r * 10;
        i = i + 1;
    }
    r
}

/// 10 raised to the sum of two exponents is the product of the powers.
pub proof fn lemma_pow10_adds(a: nat, b: nat)
    ensures
        pow10(a + b) == pow10(a) * pow10(b),
{
    lemma_pow_positive(10, a);
    lemma_pow_positive(10, b);
    lemma_pow_adds(10, a, b);
}

/// Converts a displayable decimal to the 64-bit storage key used by a book
/// side with the given fractional scale: the decimal's mantissa rewritten at
/// that scale, rounded half to even.  Fails with `ValueOutOfRange` exactly
/// when the rewritten mantissa does not fit in 64 bits.
pub fn display_to_storage(d: &DisplayAmount, scale: u32) -> (r: Result<StorageAmount, OrderBookError>)
    requires
        d.wf(),
        !d.negative,
        scale <= MAX_SCALE,
    ensures
        r is Ok <==> rescale(d.mantissa as nat, d.scale as nat, scale as nat) < STORAGE_LIMIT as nat,
        r matches Ok(n) ==> n as nat == rescale(d.mantissa as nat, d.scale as nat, scale as nat),
        r is Err ==> r == Err::<StorageAmount, OrderBookError>(OrderBookError::ValueOutOfRange),
{
    let m = d.mantissa;
    if d.scale > scale {
        let p = pow10_u128(d.scale - scale);
        let q = m / p;
        let rem = m % p;
        let rounded = if 2 * rem > p || (2 * rem == p && q % 2 == 1) {
            q + 1
        } else {
            q
        };
        assert(rounded as nat == rescale(m as nat, d.scale as nat, scale as nat));
        if rounded <= u64::MAX as u128 {
            Ok(rounded as u64)
        } else {
            Err(OrderBookError::ValueOutOfRange)
        }
    } else {
        let p = pow10_u128(scale - d.scale);
        let lim = (u64::MAX as u128) / p;
        proof {
            lemma_fundamental_div_mod(u64::MAX as int, p as int);
            assert(p as int * (lim as int) == lim as int * p as int) by (nonlinear_arith);
            assert(lim as int * p as int <= u64::MAX as int);
        }
        if m > lim {
            proof {
                lemma_mul_inequality(lim as int + 1, m as int, p as int);
                assert((lim as int + 1) * (p as int) == lim as int * p as int + p as int)
                    by (nonlinear_arith);
                assert(m as int * p as int > u64::MAX as int);
                assert(rescale(m as nat, d.scale as nat, scale as nat) == m as nat * pow10(
                    (scale - d.scale) as nat,
                ));
            }
            Err(OrderBookError::ValueOutOfRange)
        } else {
            proof {
                lemma_mul_inequality(m as int, lim as int, p as int);
                assert(m as int * p as int <= u64::MAX as int);
            }
            Ok((m * p) as u64)
        }
    }
}

/// Loads a 64-bit storage key back into a displayable decimal by applying the
/// side's fractional scale to it.  Fails exactly when the scale is not
/// representable.
pub fn storage_to_display(n: StorageAmount, scale: u32) -> (r: Result<DisplayAmount, OrderBookError>)
    ensures
        r is Ok <==> scale <= MAX_SCALE,
        scale <= MAX_SCALE ==> r == Ok::<DisplayAmount, OrderBookError>(
            DisplayAmount { negative: false, mantissa: n as u128, scale },
        ),
        r is Err ==> r == Err::<DisplayAmount, OrderBookError>(OrderBookError::ValueOutOfRange),
{
    if scale <= MAX_SCALE {
        Ok(DisplayAmount { negative: false, mantissa: n as u128, scale })
    } else {
        Err(OrderBookError::ValueOutOfRange)
    }
}

/// Round trip: a non-negative decimal with at most `scale` fractional digits
/// whose key fits in storage comes back from the key denoting the same number.
pub proof fn lemma_decimal_round_trip(d: DisplayAmount, scale: u32)
    requires
        d.wf(),
        !d.negative,
        d.scale <= scale <= MAX_SCALE,
        rescale(d.mantissa as nat, d.scale as nat, scale as nat) < STORAGE_LIMIT as nat,
    ensures
        ({
            let key = rescale(d.mantissa as nat, d.scale as nat, scale as nat);
            let back = DisplayAmount { negative: false, mantissa: key as u128, scale };
            back.wf() && same_value(back, d)
        }),
{
    let up = (scale - d.scale) as nat;
    let rest = (MAX_SCALE - scale) as nat;
    let key = rescale(d.mantissa as nat, d.scale as nat, scale as nat);
    let back = DisplayAmount { negative: false, mantissa: key as u128, scale };
    assert(key == d.mantissa * pow10(up));
    lemma_pow10_adds(up, rest);
    lemma_pow_positive(10, up);
    lemma_pow_positive(10, rest);
    lemma_mul_is_associative(d.mantissa as int, pow10(up) as int, pow10(rest) as int);
    assert(back.magnitude() == d.mantissa * (pow10(up) * pow10(rest)));
    assert(d.magnitude() == d.mantissa * pow10((MAX_SCALE - d.scale) as nat));
    assert(up + rest == (MAX_SCALE - d.scale) as nat);
}

proof fn lemma_align_magnitude(m: nat, s1: nat, s2: nat)
    requires
        s1 <= s2 <= MAX_SCALE,
    ensures
        m * pow10((MAX_SCALE - s1) as nat) == (m * pow10((s2 - s1) as nat)) * pow10(
            (MAX_SCALE - s2) as nat,
        ),
{
    lemma_pow10_adds((s2 - s1) as nat, (MAX_SCALE - s2) as nat);
    lemma_mul_is_associative(m as int, pow10((s2 - s1) as nat) as int, pow10((MAX_SCALE - s2) as nat) as int);
}

proof fn lemma_scale_preserves_le(x: nat, y: nat, p: nat)
    requires
        p >= 1,
    ensures
        (x <= y) <==> (x * p <= y * p),
{
    assert((x <= y) <==> (x * p <= y * p)) by (nonlinear_arith)
        requires
            p >= 1,
    ;
}

/// Exact comparison of two decimals' magnitudes, across their scales.
pub fn magnitude_le(a: &DisplayAmount, b: &DisplayAmount) -> (r: bool)
    requires
        a.wf(),
        b.wf(),
    ensures
        r == (a.magnitude() <= b.magnitude()),
{
    if a.scale == b.scale {
        proof {
            lemma_pow10_pos((MAX_SCALE - a.scale) as nat);
            lemma_scale_preserves_le(
                a.mantissa as nat,
                b.mantissa as nat,
                pow10((MAX_SCALE - a.scale) as nat),
            );
        }
        a.mantissa <= b.mantissa
    } else if a.scale < b.scale {
        let p = pow10_u128(b.scale - a.scale);
        proof {
            lemma_align_magnitude(a.mantissa as nat, a.scale as nat, b.scale as nat);
            lemma_pow10_pos((MAX_SCALE - b.scale) as nat);
        }
        let lim = u128::MAX / p;
        if a.mantissa > lim {
            proof {
                lemma_fundamental_div_mod(u128::MAX as int, p as int);
                lemma_mul_inequality(lim as int + 1, a.mantissa as int, p as int);
                assert((lim as int + 1) * (p as int) == lim as int * p as int + p as int)
                    by (nonlinear_arith);
                assert(p as int * (lim as int) == lim as int * p as int) by (nonlinear_arith);
                assert(a.mantissa as int * p as int > u128::MAX as int);
                lemma_scale_preserves_le(
                    (a.mantissa * pow10((b.scale - a.scale) as nat)) as nat,
                    b.mantissa as nat,
                    pow10((MAX_SCALE - b.scale) as nat),
                );
            }
            false
        } else {
            proof {
                lemma_fundamental_div_mod(u128::MAX as int, p as int);
                assert(p as int * (lim as int) == lim as int * p as int) by (nonlinear_arith);
                lemma_mul_inequality(a.mantissa as int, lim as int, p as int);
                lemma_scale_preserves_le(
                    (a.mantissa * pow10((b.scale - a.scale) as nat)) as nat,
                    b.mantissa as nat,
                    pow10((MAX_SCALE - b.scale) as nat),
                );
            }
            a.mantissa * p <= b.mantissa
        }
    } else {
        let p = pow10_u128(a.scale - b.scale);
        proof {
            lemma_align_magnitude(b.mantissa as nat, b.scale as nat, a.scale as nat);
            lemma_pow10_pos((MAX_SCALE - a.scale) as nat);
        }
        let lim = u128::MAX / p;
        if b.mantissa > lim {
            proof {
                lemma_fundamental_div_mod(u128::MAX as int, p as int);
                lemma_mul_inequality(lim as int + 1, b.mantissa as int, p as int);
                assert((lim as int + 1) * (p as int) == lim as int * p as int + p as int)
                    by (nonlinear_arith);
                assert(p as int * (lim as int) == lim as int * p as int) by (nonlinear_arith);
                assert(b.mantissa as int * p as int > u128::MAX as int);
                lemma_scale_preserves_le(
                    a.mantissa as nat,
                    (b.mantissa * pow10((a.scale - b.scale) as nat)) as nat,
                    pow10((MAX_SCALE - a.scale) as nat),
                );
            }
            true
        } else {
            proof {
                lemma_fundamental_div_mod(u128::MAX as int, p as int);
                assert(p as int * (lim as int) == lim as int * p as int) by (nonlinear_arith);
                lemma_mul_inequality(b.mantissa as int, lim as int, p as int);
                lemma_scale_preserves_le(
                    a.mantissa as nat,
                    (b.mantissa * pow10((a.scale - b.scale) as nat)) as nat,
                    pow10((MAX_SCALE - a.scale) as nat),
                );
            }
            a.mantissa <= b.mantissa * p
        }
    }
}

/// The scale both operands of a subtraction are aligned to.
pub open spec fn common_scale(a: DisplayAmount, b: DisplayAmount) -> u32 {
    if a.scale >= b.scale {
        a.scale
    } else {
        b.scale
    }
}

/// The mantissa of a decimal rewritten at the common scale.
pub open spec fn aligned_mantissa(d: DisplayAmount, s: u32) -> nat {
    (d.mantissa * pow10((s - d.scale) as nat)) as nat
}

/// Whether the difference of two non-negative decimals is representable:
/// both mantissas, aligned to the common scale, fit the machine word, and
/// their difference fits a 96-bit mantissa.
pub open spec fn sub_value_ok(a: DisplayAmount, b: DisplayAmount) -> bool {
    let s = common_scale(a, b);
    let va = aligned_mantissa(a, s);
    let vb = aligned_mantissa(b, s);
    &&& va <= u128::MAX
    &&& vb <= u128::MAX
    &&& (va - vb < MANTISSA_LIMIT)
    &&& (vb - va < MANTISSA_LIMIT)
}

/// Rewrites the mantissa at the common scale, or fails when it would not
/// fit the machine word.
fn align_mantissa(d: &DisplayAmount, s: u32) -> (r: Result<u128, OrderBookError>)
    requires
        d.wf(),
        d.scale <= s <= MAX_SCALE,
    ensures
        r is Ok <==> aligned_mantissa(*d, s) <= u128::MAX,
        r matches Ok(v) ==> v as nat == aligned_mantissa(*d, s),
        r is Err ==> r == Err::<u128, OrderBookError>(OrderBookError::ValueOutOfRange),
        d.mantissa * pow10((s - d.scale) as nat) == aligned_mantissa(*d, s),
{
    let p = pow10_u128(s - d.scale);
    let lim = u128::MAX / p;
    proof {
        lemma_fundamental_div_mod(u128::MAX as int, p as int);
        assert(p as int * (lim as int) == lim as int * p as int) by (nonlinear_arith);
    }
    if d.mantissa > lim {
        proof {
            lemma_mul_inequality(lim as int + 1, d.mantissa as int, p as int);
            assert((lim as int + 1) * (p as int) == lim as int * p as int + p as int)
                by (nonlinear_arith);
        }
        Err(OrderBookError::ValueOutOfRange)
    } else {
        proof {
            lemma_mul_inequality(d.mantissa as int, lim as int, p as int);
        }
        Ok(d.mantissa * p)
    }
}

/// The exact difference `a - b` of two non-negative decimals, carried out at
/// their common scale; the sign flag records a negative difference.  Fails
/// with `ValueOutOfRange` exactly when the difference is not representable.
pub fn sub_value(a: &DisplayAmount, b: &DisplayAmount) -> (r: Result<DisplayAmount, OrderBookError>)
    requires
        a.wf(),
        b.wf(),
        !a.negative,
        !b.negative,
    ensures
        r is Ok <==> sub_value_ok(*a, *b),
        r matches Ok(d) ==> d.wf() && d.scale == common_scale(*a, *b) && d.value() == a.value()
            - b.value() && (d.negative <==> aligned_mantissa(*b, common_scale(*a, *b))
            > aligned_mantissa(*a, common_scale(*a, *b))),
        r is Err ==> r == Err::<DisplayAmount, OrderBookError>(OrderBookError::ValueOutOfRange),
{
    let s = if a.scale >= b.scale {
        a.scale
    } else {
        b.scale
    };
    let va = match align_mantissa(a, s) {
        Ok(v) => v,
        Err(e) => {
            return Err(e);
        },
    };
    let vb = match align_mantissa(b, s) {
        Ok(v) => v,
        Err(e) => {
            return Err(e);
        },
    };
    let (negative, diff) = if va >= vb {
        (false, va - vb)
    } else {
        (true, vb - va)
    };
    if diff >= MANTISSA_LIMIT {
        return Err(OrderBookError::ValueOutOfRange);
    }
    let d = DisplayAmount { negative: negative && diff > 0, mantissa: diff, scale: s };
    proof {
        let rest = (MAX_SCALE - s) as nat;
        lemma_pow10_pos(rest);
        lemma_align_magnitude(a.mantissa as nat, a.scale as nat, s as nat);
        lemma_align_magnitude(b.mantissa as nat, b.scale as nat, s as nat);
        assert((va as int - vb as int) * pow10(rest) as int == va as int * pow10(rest) as int
            - vb as int * pow10(rest) as int) by (nonlinear_arith);
        assert((vb as int - va as int) * pow10(rest) as int == vb as int * pow10(rest) as int
            - va as int * pow10(rest) as int) by (nonlinear_arith);
        if diff == 0 {
            assert(d.magnitude() == 0) by (nonlinear_arith)
                requires
                    d.mantissa == 0,
            ;
        }
    }
    Ok(d)
}

/// The byte is an ASCII decimal digit.
pub open spec fn is_ascii_digit(b: u8) -> bool {
    48 <= b <= 57
}

/// Every byte of the string is an ASCII decimal digit.
pub open spec fn all_digits(s: Seq<u8>) -> bool {
    forall|i: int| 0 <= i < s.len() ==> is_ascii_digit(#[trigger] s[i])
}

/// The number a string of ASCII digits denotes, most significant first.
pub open spec fn digits_val(s: Seq<u8>) -> nat
    decreases s.len(),
{
    if s.len() == 0 {
        0
    } else {
        digits_val(s.drop_last()) * 10 + (s.last() - 48) as nat
    }
}

/// The string is digits, a decimal point at `p`, and more digits.
pub open spec fn decimal_dot_at(s: Seq<u8>, p: int) -> bool {
    &&& 1 <= p <= s.len() - 2
    &&& s[p] == 46
    &&& all_digits(s.take(p))
    &&& all_digits(s.skip(p + 1))
}

/// The string is a plain non-negative decimal numeral: digits with at most
/// one decimal point, neither leading nor trailing.
pub open spec fn wellformed_decimal(s: Seq<u8>) -> bool {
    ||| (s.len() >= 1 && all_digits(s))
    ||| exists|p: int| decimal_dot_at(s, p)
}

/// The digits of the numeral with the decimal point removed.
pub open spec fn decimal_digits(s: Seq<u8>) -> Seq<u8> {
    if all_digits(s) {
        s
    } else {
        let p = choose|p: int| decimal_dot_at(s, p);
        s.take(p) + s.skip(p + 1)
    }
}

/// The number of digits after the decimal point.
pub open spec fn decimal_scale_of(s: Seq<u8>) -> nat {
    if all_digits(s) {
        0
    } else {
        let p = choose|p: int| decimal_dot_at(s, p);
        (s.len() - p - 1) as nat
    }
}

proof fn lemma_digits_val_prefix(s: Seq<u8>, i: int)
    requires
        0 <= i <= s.len(),
    ensures
        digits_val(s.take(i)) <= digits_val(s),
    decreases s.len() - i,
{
    if i == s.len() {
        assert(s.take(i) == s);
    } else {
        assert(s.take(i + 1).drop_last() == s.take(i));
        assert(digits_val(s.take(i + 1)) == digits_val(s.take(i)) * 10 + (s.take(i + 1).last()
            - 48) as nat);
        lemma_digits_val_prefix(s, i + 1);
    }
}

/// Parses a plain non-negative decimal numeral, such as the prices and
/// quantities on an exchange's wire, into a display decimal: the digits
/// become the mantissa, the digits after the point the scale.  Returns
/// `None` exactly when the string is not such a numeral, the mantissa
/// overflows 96 bits, or the scale exceeds the largest representable one.
pub fn parse_decimal_bytes(s: &[u8]) -> (r: Option<DisplayAmount>)
    ensures
        r is Some <==> wellformed_decimal(s@) && digits_val(decimal_digits(s@)) < MANTISSA_LIMIT
            as nat && decimal_scale_of(s@) <= MAX_SCALE as nat,
        r matches Some(d) ==> d == (DisplayAmount {
            negative: false,
            mantissa: digits_val(decimal_digits(s@)) as u128,
            scale: decimal_scale_of(s@) as u32,
        }) && d.wf(),
{
    let n = s.len();
    if n == 0 {
        return None;
    }
    let mut dot: usize = n;
    let mut i: usize = 0;
    while i < n
        invariant
            0 <= i <= n,
            n == s@.len(),
            dot == n || (dot < i && s@[dot as int] == 46),
            forall|k: int| 0 <= k < i && k != dot ==> is_ascii_digit(#[trigger] s@[k]),
        decreases n - i,
    {
        let b = s[i];
        if b == 46 {
            if dot < n {
                // a second decimal point: no position can satisfy the shape
                proof {
                    assert forall|p: int| !decimal_dot_at(s@, p) by {
                        if decimal_dot_at(s@, p) {
                            if p < i {
                                if p != dot {
                                    assert(is_ascii_digit(s@[p]));
                                } else {
                                    assert(all_digits(s@.skip(p + 1)));
                                    assert(s@.skip(p + 1)[i - p - 1] == s@[i as int]);
                                }
                            } else {
                                assert(all_digits(s@.take(p)));
                                assert(s@.take(p)[dot as int] == s@[dot as int]);
                            }
                        }
                    }
                    assert(!all_digits(s@)) by {
                        assert(s@[dot as int] == 46);
                    }
                }
                return None;
            }
            dot = i;
        } else if !(48 <= b && b <= 57) {
            proof {
                assert(!all_digits(s@)) by {
                    assert(s@[i as int] == b);
                }
                assert forall|p: int| !decimal_dot_at(s@, p) by {
                    if decimal_dot_at(s@, p) {
                        if p == i as int {
                            assert(s@[p] == 46);
                        } else if (i as int) < p {
                            assert(s@.take(p)[i as int] == s@[i as int]);
                        } else {
                            assert(s@.skip(p + 1)[i - p - 1] == s@[i as int]);
                        }
                    }
                }
            }
            return None;
        }
        i = i + 1;
    }
    // reject a leading or trailing decimal point
    if dot < n && (dot == 0 || dot == n - 1) {
        proof {
            assert(!all_digits(s@)) by {
                assert(s@[dot as int] == 46);
            }
            assert forall|p: int| !decimal_dot_at(s@, p) by {
                if decimal_dot_at(s@, p) {
                    if p == dot as int {
                    } else if p < dot {
                        assert(s@.skip(p + 1)[dot - p - 1] == s@[dot as int]);
                    } else {
                        assert(s@.take(p)[dot as int] == s@[dot as int]);
                    }
                }
            }
        }
        return None;
    }
    proof {
        if dot < n {
            assert(decimal_dot_at(s@, dot as int)) by {
                assert(forall|k: int| 0 <= k < dot ==> is_ascii_digit(#[trigger] s@.take(dot as int)[k]));
                assert(forall|k: int| 0 <= k < s@.skip(dot + 1).len() ==> is_ascii_digit(
                    #[trigger] s@.skip(dot + 1)[k],
                ));
            }
            assert(!all_digits(s@)) by {
                assert(s@[dot as int] == 46);
            }
            assert forall|p: int| decimal_dot_at(s@, p) implies p == dot as int by {
                if p < dot {
                    assert(s@.skip(p + 1)[dot - p - 1] == s@[dot as int]);
                } else if p > dot {
                    assert(s@.take(p)[dot as int] == s@[dot as int]);
                }
            }
            assert((choose|p: int| decimal_dot_at(s@, p)) == dot as int);
        } else {
            assert(all_digits(s@));
        }
    }
    let scale = if dot < n {
        n - 1 - dot
    } else {
        0
    };
    if scale > 28 {
        return None;
    }
    let ghost ds = decimal_digits(s@);
    proof {
        if dot < n {
            assert(ds == s@.take(dot as int) + s@.skip(dot + 1));
        }
    }
    let mut m: u128 = 0;
    let mut j: usize = 0;
    while j < n
        invariant
            0 <= j <= n,
            n == s@.len(),
            n >= 1,
            dot == n || (dot < n && s@[dot as int] == 46 && 1 <= dot <= n - 2),
            dot < n ==> ds == s@.take(dot as int) + s@.skip(dot + 1),
            dot == n ==> ds == s@,
            forall|k: int| 0 <= k < n && k != dot ==> is_ascii_digit(#[trigger] s@[k]),
            ds.len() == if dot < n {
                n - 1
            } else {
                n as int
            },
            forall|k: int| 0 <= k < ds.len() ==> ds[k] == s@[if k < dot {
                k
            } else {
                k + 1
            }],
            m < MANTISSA_LIMIT,
            m == digits_val(
                ds.take(
                    if j <= dot {
                        j as int
                    } else {
                        j - 1
                    },
                ),
            ),
        decreases n - j,
    {
        if j != dot {
            let b = s[j];
            let ghost dj = if j < dot {
                j as int
            } else {
                j - 1
            };
            proof {
                assert(ds[dj] == s@[j as int]);
                assert(ds.take(dj + 1).drop_last() == ds.take(dj));
                assert(ds.take(dj + 1).last() == ds[dj]);
            }
            m = m * 10 + ((b - 48) as u128);
            proof {
                assert(is_ascii_digit(s@[j as int]));
                assert(m == digits_val(ds.take(dj + 1)));
            }
            if m >= MANTISSA_LIMIT {
                proof {
                    lemma_digits_val_prefix(ds, dj + 1);
                }
                return None;
            }
        }
        j = j + 1;
    }
    proof {
        assert(ds.take(ds.len() as int) == ds);
    }
    Some(DisplayAmount { negative: false, mantissa: m, scale: scale as u32 })
}

/// Conversion of a value of some displayable kind into a 64-bit storage key
/// at a given fractional scale.
pub trait ToStorage: Sized {
    /// The inputs on which the conversion is defined.
    spec fn storage_wf(&self, scale: u32) -> bool;

    /// The key the conversion must produce, before the 64-bit fit check.
    spec fn storage_key(&self, scale: u32) -> nat;

    /// Produces the storage key, or `ValueOutOfRange` when it does not fit.
    fn to_storage(&self, scale: u32) -> (r: Result<StorageAmount, OrderBookError>)
        requires
            self.storage_wf(scale),
        ensures
            r is Ok <==> self.storage_key(scale) < STORAGE_LIMIT as nat,
            r matches Ok(n) ==> n as nat == self.storage_key(scale),
            r is Err ==> r == Err::<StorageAmount, OrderBookError>(OrderBookError::ValueOutOfRange),
    ;
}

impl ToStorage for DisplayAmount {
    open spec fn storage_wf(&self, scale: u32) -> bool {
        self.wf() && !self.negative && scale <= MAX_SCALE
    }

    open spec fn storage_key(&self, scale: u32) -> nat {
        rescale(self.mantissa as nat, self.scale as nat, scale as nat)
    }

    fn to_storage(&self, scale: u32) -> (r: Result<StorageAmount, OrderBookError>) {
        display_to_storage(self, scale)
    }
}

/// Conversion of a 64-bit storage key back into a displayable decimal.
pub trait ToDisplay: Sized {
    /// The decimal the conversion must produce when the scale is valid.
    spec fn display_of(&self, scale: u32) -> DisplayAmount;

    /// Produces the decimal, or `ValueOutOfRange` for an invalid scale.
    fn to_display(&self, scale: u32) -> (r: Result<DisplayAmount, OrderBookError>)
        ensures
            r is Ok <==> scale <= MAX_SCALE,
            scale <= MAX_SCALE ==> r == Ok::<DisplayAmount, OrderBookError>(self.display_of(scale)),
            r is Err ==> r == Err::<DisplayAmount, OrderBookError>(OrderBookError::ValueOutOfRange),
    ;
}

impl ToDisplay for StorageAmount {
    open spec fn display_of(&self, scale: u32) -> DisplayAmount {
        DisplayAmount { negative: false, mantissa: *self as u128, scale }
    }

    fn to_display(&self, scale: u32) -> (r: Result<DisplayAmount, OrderBookError>) {
        storage_to_display(*self, scale)
    }
}

} // verus!
