//! Exact decimal amounts.
//!
//! Prices, quantities, volumes and percentages are fixed-point numbers with
//! eight fractional digits, held as a count of hundred-millionths. Nothing is
//! ever rounded: text that cannot be held exactly is refused, and products
//! are kept at their full width as a [`Notional`].

use crate::text::{
    all_digits, append_fixed, append_nat, chars_of, digit_of, digit_run_end, digits_value,
    fixed_digits, is_digit, lemma_digit_run_end, lemma_digit_run_is_digits,
    lemma_digits_value_push, lemma_fixed_digits, lemma_nat_text, lemma_pow10_add,
    lemma_pow10_values, magnitude, nat_text, pow10,
};
use vstd::prelude::*;

verus! {

/// How many units make one: `10^8`.
pub const SCALE: i64 = 100_000_000;

/// The largest whole part whose units can still fit below `2^63`.
pub const WHOLE_LIMIT: u64 = 92_233_720_368;

/// A decimal number with eight fractional digits. The number it stands for is
/// `units / 10^8`.
#[derive(Clone, Copy, Debug, PartialEq, Eq, Structural)]
pub struct Amount {
    pub units: i64,
}

/// A product of two amounts, at full precision: `units / 10^16`.
#[derive(Clone, Copy, Debug, PartialEq, Eq, Structural)]
pub struct Notional {
    pub units: i128,
}

/// The absolute value of `i`.
pub open spec fn abs_int(i: int) -> int {
    if i < 0 {
        -i
    } else {
        i
    }
}

/// `magnitude` with a sign in front.
pub open spec fn signed_units(negative: bool, magnitude: int) -> int {
    if negative {
        -magnitude
    } else {
        magnitude
    }
}

/// The digits of `n` as a fraction of `width` places, without the trailing
/// zeros.
pub open spec fn trimmed_digits(n: nat, width: nat) -> Seq<char>
    decreases width,
{
    if width == 0 {
        Seq::empty()
    } else if n % 10 == 0 {
        trimmed_digits(n / 10, (width - 1) as nat)
    } else {
        fixed_digits(n, width)
    }
}

/// The fractional part of an amount's text: nothing when the fraction is
/// zero, else a point and the digits up to the last one that is not zero.
pub open spec fn fraction_text(fraction: nat) -> Seq<char> {
    if fraction == 0 {
        Seq::empty()
    } else {
        seq!['.'] + trimmed_digits(fraction, 8)
    }
}

/// A decimal text put together from its parts: a `'-'` if `negative`, the
/// digits of the whole part, and, unless `fraction` is empty, a `'.'` and the
/// digits of the fraction.
pub open spec fn decimal_text(negative: bool, whole: Seq<char>, fraction: Seq<char>) -> Seq<char> {
    let sign = if negative {
        seq!['-']
    } else {
        Seq::<char>::empty()
    };
    let tail = if fraction.len() == 0 {
        Seq::<char>::empty()
    } else {
        seq!['.'] + fraction
    };
    sign + whole + tail
}

/// The canonical text of the amount with the given units: an optional `'-'`,
/// the whole part without leading zeros, and the fraction without trailing
/// zeros (`"0.0002"`, `"-12.5"`, `"42"`).
pub open spec fn amount_text(units: int) -> Seq<char> {
    let magnitude = abs_int(units);
    let sign = if units < 0 {
        seq!['-']
    } else {
        Seq::<char>::empty()
    };
    sign + nat_text((magnitude / 100_000_000) as nat) + fraction_text(
        (magnitude % 100_000_000) as nat,
    )
}

/// The units that a decimal text denotes, or `None` if the text is not a
/// decimal number with at most eight fractional digits.
///
/// The accepted texts are: an optional `'-'`, one or more digits, and then
/// either nothing or a `'.'` followed by one to eight digits.
pub open spec fn amount_text_units(s: Seq<char>) -> Option<int> {
    let negative = s.len() > 0 && s[0] == '-';
    let start: int = if negative {
        1
    } else {
        0
    };
    let mid = digit_run_end(s, start);
    let end = digit_run_end(s, mid + 1);
    let whole = digits_value(s.subrange(start, mid));
    if mid == start {
        None
    } else if mid == s.len() {
        Some(signed_units(negative, (whole * 100_000_000) as int))
    } else if s[mid] == '.' && end == s.len() && 1 <= end - (mid + 1) <= 8 {
        let places = (end - (mid + 1)) as nat;
        let fraction = digits_value(s.subrange(mid + 1, end)) * pow10((8 - places) as nat);
        Some(signed_units(negative, (whole * 100_000_000 + fraction) as int))
    } else {
        None
    }
}

/// The amount that a decimal text denotes, if it denotes one that fits.
pub open spec fn amount_of_text(s: Seq<char>) -> Option<Amount> {
    match amount_text_units(s) {
        Some(units) => if i64::MIN <= units <= i64::MAX {
            Some(Amount { units: units as i64 })
        } else {
            None
        },
        None => None,
    }
}

/// The trimmed digits of a fraction are between one and `width` digits, and
/// read back, shifted into place, as the fraction.
pub proof fn lemma_trimmed_digits(n: nat, width: nat)
    requires
        0 < n < pow10(width),
    ensures
        1 <= trimmed_digits(n, width).len() <= width,
        all_digits(trimmed_digits(n, width)),
        digits_value(trimmed_digits(n, width)) * pow10(
            (width - trimmed_digits(n, width).len()) as nat,
        ) == n,
    decreases width,
{
    if width == 0 {
    } else if n % 10 == 0 {
        let rest = trimmed_digits(n / 10, (width - 1) as nat);
        lemma_trimmed_digits(n / 10, (width - 1) as nat);
        let shift = pow10((width - 1 - rest.len()) as nat) as int;
        let value = digits_value(rest) as int;
        assert(pow10((width - rest.len()) as nat) == 10 * shift);
        assert(value * (10 * shift) == (value * shift) * 10) by (nonlinear_arith);
    } else {
        lemma_fixed_digits(n, width);
        assert(digits_value(fixed_digits(n, width)) * 1 == n);
    }
}

/// Law: reading is exact. A sign, one or more digits and at most eight
/// digits of fraction are read as precisely the number they write: the
/// whole part in full units and each fractional digit at its own place,
/// with nothing rounded.
pub proof fn lemma_decimal_text_is_read_exactly(
    negative: bool,
    whole: Seq<char>,
    fraction: Seq<char>,
)
    requires
        whole.len() >= 1,
        all_digits(whole),
        all_digits(fraction),
        fraction.len() <= 8,
    ensures
        amount_text_units(decimal_text(negative, whole, fraction)) == Some(
            signed_units(
                negative,
                (digits_value(whole) * 100_000_000 + digits_value(fraction) * pow10(
                    (8 - fraction.len()) as nat,
                )) as int,
            ),
        ),
{
    let s = decimal_text(negative, whole, fraction);
    let start: int = if negative {
        1
    } else {
        0
    };
    let mid = start + whole.len();
    assert(is_digit(whole[0]));
    assert(s[start] == whole[0]);
    assert(s.len() > 0 && (s[0] == '-') == negative);
    assert(s.subrange(start, mid) =~= whole);
    if fraction.len() == 0 {
        assert(mid == s.len());
        lemma_digit_run_end(s, start, mid);
        assert(digits_value(fraction) == 0);
        assert(digits_value(fraction) * pow10(8) == 0);
    } else {
        assert(s[mid] == '.');
        lemma_digit_run_end(s, start, mid);
        let end = s.len() as int;
        assert(end == mid + 1 + fraction.len());
        assert(s.subrange(mid + 1, end) =~= fraction);
        lemma_digit_run_end(s, mid + 1, end);
    }
}

/// Law: nothing else is read. A text that denotes an amount is put together
/// from a sign, one or more digits and at most eight digits of fraction;
/// the parts are returned.
pub proof fn lemma_amount_text_shape(s: Seq<char>) -> (parts: (bool, Seq<char>, Seq<char>))
    requires
        amount_text_units(s) is Some,
    ensures
        s == decimal_text(parts.0, parts.1, parts.2),
        parts.1.len() >= 1,
        all_digits(parts.1),
        all_digits(parts.2),
        parts.2.len() <= 8,
{
    let negative = s.len() > 0 && s[0] == '-';
    let start: int = if negative {
        1
    } else {
        0
    };
    lemma_digit_run_is_digits(s, start);
    let mid = digit_run_end(s, start);
    let whole = s.subrange(start, mid);
    if mid == s.len() {
        let fraction = Seq::<char>::empty();
        assert(s =~= decimal_text(negative, whole, fraction));
        (negative, whole, fraction)
    } else {
        lemma_digit_run_is_digits(s, mid + 1);
        let fraction = s.subrange(mid + 1, s.len() as int);
        assert(s =~= decimal_text(negative, whole, fraction));
        (negative, whole, fraction)
    }
}

/// Law: the canonical text of an amount denotes that amount. Whatever units
/// are written out are read back unchanged.
pub proof fn lemma_amount_text_round_trip(units: int)
    ensures
        amount_text_units(amount_text(units)) == Some(units),
{
    let magnitude = abs_int(units);
    let whole = (magnitude / 100_000_000) as nat;
    let fraction = (magnitude % 100_000_000) as nat;
    lemma_nat_text(whole);
    lemma_pow10_values();
    if fraction == 0 {
        let none = Seq::<char>::empty();
        assert(amount_text(units) =~= decimal_text(units < 0, nat_text(whole), none));
        lemma_decimal_text_is_read_exactly(units < 0, nat_text(whole), none);
        assert(digits_value(none) == 0);
        assert(digits_value(none) * pow10(8) == 0);
    } else {
        let digits = trimmed_digits(fraction, 8);
        lemma_trimmed_digits(fraction, 8);
        assert(amount_text(units) =~= decimal_text(units < 0, nat_text(whole), digits));
        lemma_decimal_text_is_read_exactly(units < 0, nat_text(whole), digits);
    }
}

/// Ten to the power `e`, for the exponents that occur in an amount.
pub fn pow10_u64(e: u32) -> (p: u64)
    requires
        e <= 8,
    ensures
        p == pow10(e as nat),
{
    proof {
        lemma_pow10_values();
    }
    match e {
        0 => 1,
        1 => 10,
        2 => 100,
        3 => 1_000,
        4 => 10_000,
        5 => 100_000,
        6 => 1_000_000,
        7 => 10_000_000,
        _ => 100_000_000,
    }
}

impl Amount {
    /// The amount of `units` hundred-millionths.
    pub fn from_units(units: i64) -> (amount: Amount)
        ensures
            amount.units == units,
    {
        Amount { units }
    }

    /// Zero.
    pub fn zero() -> (amount: Amount)
        ensures
            amount.units == 0,
    {
        Amount { units: 0 }
    }

    /// Reads a decimal text. Succeeds exactly on the texts that
    /// [`amount_text_units`] accepts and whose value fits; the result is then
    /// the exact value, with no rounding.
    pub fn parse(s: &str) -> (amount: Option<Amount>)
        ensures
            amount == amount_of_text(s@),
    {
        let chars = chars_of(s);
        let n: usize = chars.len();
        let negative = n > 0 && chars[0] == '-';
        let start: usize = if negative {
            1
        } else {
            0
        };
        let mut mid: usize = start;
        let mut whole: u64 = 0;
        let mut overflow = false;
        loop
            invariant
                n == chars.len(),
                start <= mid <= n,
                all_digits(chars@.subrange(start as int, mid as int)),
                !overflow ==> whole == digits_value(chars@.subrange(start as int, mid as int))
                    && whole <= WHOLE_LIMIT,
                overflow ==> digits_value(chars@.subrange(start as int, mid as int))
                    > WHOLE_LIMIT,
            ensures
                mid < n ==> !is_digit(chars@[mid as int]),
            decreases n - mid,
        {
            if mid >= n {
                break ;
            }
            let digit = digit_of(chars[mid]);
            match digit {
                None => {
                    break ;
                },
                Some(d) => {
                    proof {
                        let before = chars@.subrange(start as int, mid as int);
                        let after = chars@.subrange(start as int, mid as int + 1);
                        assert(after =~= before.push(chars@[mid as int]));
                        lemma_digits_value_push(before, chars@[mid as int]);
                    }
                    if !overflow {
                        let next: u64 = whole * 10 + d as u64;
                        if next > WHOLE_LIMIT {
                            overflow = true;
                        } else {
                            whole = next;
                        }
                    }
                    mid = mid + 1;
                },
            }
        }
        proof {
            lemma_digit_run_end(chars@, start as int, mid as int);
        }
        if mid == start {
            return None;
        }
        let mut fraction: u64 = 0;
        if mid < n {
            if chars[mid] != '.' {
                return None;
            }
            let first: usize = mid + 1;
            let mut end: usize = first;
            loop
                invariant
                    n == chars.len(),
                    first <= end <= n,
                    all_digits(chars@.subrange(first as int, end as int)),
                    end - first <= 8 ==> fraction == digits_value(
                        chars@.subrange(first as int, end as int),
                    ),
                    fraction < pow10(
                        (if end - first <= 8 {
                            end - first
                        } else {
                            8
                        }) as nat,
                    ),
                    fraction < 100_000_000,
                ensures
                    end < n ==> !is_digit(chars@[end as int]),
                decreases n - end,
            {
                if end >= n {
                    break ;
                }
                let digit = digit_of(chars[end]);
                match digit {
                    None => {
                        break ;
                    },
                    Some(d) => {
                        proof {
                            let before = chars@.subrange(first as int, end as int);
                            let after = chars@.subrange(first as int, end as int + 1);
                            assert(after =~= before.push(chars@[end as int]));
                            lemma_digits_value_push(before, chars@[end as int]);
                            lemma_pow10_values();
                        }
                        if end - first < 8 {
                            fraction = fraction * 10 + d as u64;
                        }
                        end = end + 1;
                    },
                }
            }
            proof {
                lemma_digit_run_end(chars@, first as int, end as int);
            }
            if end != n || end - first < 1 || end - first > 8 {
                return None;
            }
            let shift = pow10_u64((8 - (end - first)) as u32);
            proof {
                lemma_pow10_add((end - first) as nat, (8 - (end - first)) as nat);
                lemma_pow10_values();
                let p = pow10((end - first) as nat) as int;
                let q = shift as int;
                let f = fraction as int;
                assert(f * q <= (p - 1) * q) by (nonlinear_arith)
                    requires
                        0 <= f <= p - 1,
                        q >= 0,
                ;
                assert((p - 1) * q == p * q - q) by (nonlinear_arith);
            }
            fraction = fraction * shift;
        }
        proof {
            let whole_value = digits_value(chars@.subrange(start as int, mid as int)) as int;
            assert(overflow ==> whole_value * 100_000_000 + fraction > i64::MAX + 1)
                by (nonlinear_arith)
                requires
                    overflow ==> whole_value > 92_233_720_368,
                    fraction >= 0,
            ;
        }
        if overflow {
            return None;
        }
        assert(whole * 100_000_000 <= 92_233_720_368 * 100_000_000) by (nonlinear_arith)
            requires
                whole <= 92_233_720_368,
        ;
        let magnitude: u64 = whole * 100_000_000 + fraction;
        if negative {
            if magnitude > 9_223_372_036_854_775_808 {
                None
            } else if magnitude == 9_223_372_036_854_775_808 {
                Some(Amount { units: i64::MIN })
            } else {
                Some(Amount { units: -(magnitude as i64) })
            }
        } else {
            if magnitude > 9_223_372_036_854_775_807 {
                None
            } else {
                Some(Amount { units: magnitude as i64 })
            }
        }
    }

    /// Appends the canonical text of the amount to `out`.
    pub fn append_to(&self, out: &mut String)
        ensures
            final(out)@ == old(out)@ + amount_text(self.units as int),
    {
        if self.units < 0 {
            proof {
                reveal_strlit("-");
            }
            out.append("-");
        }
        let magnitude: u64 = magnitude(self.units);
        let whole: u64 = magnitude / 100_000_000;
        let mut fraction: u64 = magnitude % 100_000_000;
        append_nat(out, whole);
        if fraction != 0 {
            proof {
                reveal_strlit(".");
            }
            out.append(".");
            let mut width: u32 = 8;
            proof {
                lemma_pow10_values();
            }
            while fraction % 10 == 0
                invariant
                    0 < fraction,
                    width <= 8,
                    trimmed_digits(fraction as nat, width as nat) == trimmed_digits(
                        (magnitude % 100_000_000) as nat,
                        8,
                    ),
                    fraction < pow10(width as nat),
                decreases fraction,
            {
                proof {
                    if width == 0 {
                        assert(pow10(0) == 1);
                    }
                }
                fraction = fraction / 10;
                width = width - 1;
            }
            proof {
                if width == 0 {
                    assert(pow10(0) == 1);
                }
            }
            append_fixed(out, fraction, width);
            assert(out@ =~= old(out)@ + amount_text(self.units as int));
        } else {
            assert(out@ =~= old(out)@ + amount_text(self.units as int));
        }
    }

    /// The canonical text of the amount.
    pub fn to_text(&self) -> (s: String)
        ensures
            s@ == amount_text(self.units as int),
    {
        let mut s = String::new();
        self.append_to(&mut s);
        assert(s@ =~= amount_text(self.units as int));
        s
    }
}

impl Notional {
    /// The exact product of a quantity and a price.
    pub fn of(quantity: Amount, price: Amount) -> (value: Notional)
        ensures
            value.units == quantity.units * price.units,
    {
        let q: i128 = quantity.units as i128;
        let p: i128 = price.units as i128;
        assert(-0x8000_0000_0000_0000 * 0x8000_0000_0000_0000 <= q * p <= 0x8000_0000_0000_0000
            * 0x8000_0000_0000_0000) by (nonlinear_arith)
            requires
                -0x8000_0000_0000_0000 <= q <= 0x8000_0000_0000_0000,
                -0x8000_0000_0000_0000 <= p <= 0x8000_0000_0000_0000,
        ;
        Notional { units: q * p }
    }

    /// An amount, as a value at full precision: `amount × 1`.
    pub fn from_amount(amount: Amount) -> (value: Notional)
        ensures
            value.units == amount.units * SCALE,
    {
        let a: i128 = amount.units as i128;
        Notional { units: a * 100_000_000 }
    }

    /// The absolute value, in units.
    pub fn magnitude(&self) -> (m: u128)
        ensures
            m == abs_int(self.units as int),
    {
        if self.units < 0 {
            ((-(self.units + 1)) as u128) + 1
        } else {
            self.units as u128
        }
    }
}

} // verus!
