//! Decimal digit strings: how integers are written and read.
//!
//! Everything the engine puts on the wire (timestamps, quantities, prices) is
//! plain ASCII decimal text. This module defines that text once, as spec
//! functions over `Seq<char>`, and gives the executable writers and readers
//! that are proved against it.

use vstd::prelude::*;

verus! {

/// `true` for the ten characters `'0'` to `'9'`.
pub open spec fn is_digit(c: char) -> bool {
    '0' <= c <= '9'
}

/// The number a digit character stands for.
pub open spec fn digit_value(c: char) -> int
    recommends
        is_digit(c),
{
    c as int - '0' as int
}

/// The character that writes the digit `d`.
pub open spec fn digit_char(d: int) -> char
    recommends
        0 <= d < 10,
{
    if d == 0 {
        '0'
    } else if d == 1 {
        '1'
    } else if d == 2 {
        '2'
    } else if d == 3 {
        '3'
    } else if d == 4 {
        '4'
    } else if d == 5 {
        '5'
    } else if d == 6 {
        '6'
    } else if d == 7 {
        '7'
    } else if d == 8 {
        '8'
    } else {
        '9'
    }
}

/// Every character of `s` is a digit.
pub open spec fn all_digits(s: Seq<char>) -> bool {
    forall|i: int| 0 <= i < s.len() ==> is_digit(#[trigger] s[i])
}

/// Ten to the power `e`.
pub open spec fn pow10(e: nat) -> nat
    decreases e,
{
    if e == 0 {
        1
    } else {
        10 * pow10((e - 1) as nat)
    }
}

/// The number that a string of digits denotes, most significant digit first.
/// The empty string denotes zero.
pub open spec fn digits_value(s: Seq<char>) -> nat
    decreases s.len(),
{
    if s.len() == 0 {
        0
    } else {
        (digits_value(s.drop_last()) * 10 + digit_value(s.last())) as nat
    }
}

/// The magnitude of `i`.
pub open spec fn abs_nat(i: int) -> nat {
    if i < 0 {
        (-i) as nat
    } else {
        i as nat
    }
}

/// The shortest decimal text of `n`: no leading zeros, `"0"` for zero.
pub open spec fn nat_text(n: nat) -> Seq<char>
    decreases n,
{
    if n < 10 {
        seq![digit_char(n as int)]
    } else {
        nat_text(n / 10).push(digit_char((n % 10) as int))
    }
}

/// The decimal text of a signed integer: a `'-'` in front of the magnitude
/// when it is negative.
pub open spec fn int_text(i: int) -> Seq<char> {
    if i < 0 {
        seq!['-'] + nat_text((-i) as nat)
    } else {
        nat_text(i as nat)
    }
}

/// The last `width` decimal digits of `n`, zero-padded on the left.
pub open spec fn fixed_digits(n: nat, width: nat) -> Seq<char>
    decreases width,
{
    if width == 0 {
        Seq::empty()
    } else {
        fixed_digits(n / 10, (width - 1) as nat).push(digit_char((n % 10) as int))
    }
}

/// The index just past the maximal run of digits that starts at `from`.
pub open spec fn digit_run_end(s: Seq<char>, from: int) -> int
    decreases s.len() - from,
{
    if 0 <= from < s.len() && is_digit(s[from]) {
        digit_run_end(s, from + 1)
    } else {
        from
    }
}

/// Writing a digit and reading it back gives the digit.
pub proof fn lemma_digit_char(d: int)
    requires
        0 <= d < 10,
    ensures
        is_digit(digit_char(d)),
        digit_value(digit_char(d)) == d,
{
}

/// `pow10(a + b) == pow10(a) * pow10(b)`.
pub proof fn lemma_pow10_add(a: nat, b: nat)
    ensures
        pow10(a + b) == pow10(a) * pow10(b),
    decreases a,
{
    if a == 0 {
        assert(pow10(b) == 1 * pow10(b));
    } else {
        lemma_pow10_add((a - 1) as nat, b);
        assert(10 * (pow10((a - 1) as nat) * pow10(b)) == (10 * pow10((a - 1) as nat)) * pow10(
            b,
        )) by (nonlinear_arith);
    }
}

/// The first powers of ten, as numbers.
pub proof fn lemma_pow10_values()
    ensures
        pow10(0) == 1,
        pow10(1) == 10,
        pow10(2) == 100,
        pow10(3) == 1_000,
        pow10(4) == 10_000,
        pow10(5) == 100_000,
        pow10(6) == 1_000_000,
        pow10(7) == 10_000_000,
        pow10(8) == 100_000_000,
{
    reveal_with_fuel(pow10, 9);
}

/// A digit string read after appending one digit.
pub proof fn lemma_digits_value_push(s: Seq<char>, c: char)
    ensures
        digits_value(s.push(c)) == digits_value(s) * 10 + digit_value(c) || !is_digit(c),
{
    assert(s.push(c).drop_last() =~= s);
}

/// The text of a natural number is a non-empty string of digits that reads
/// back as the number.
pub proof fn lemma_nat_text(n: nat)
    ensures
        nat_text(n).len() >= 1,
        all_digits(nat_text(n)),
        digits_value(nat_text(n)) == n,
    decreases n,
{
    if n < 10 {
        lemma_digit_char(n as int);
        let s = nat_text(n);
        assert(s.drop_last() =~= Seq::<char>::empty());
        assert(digits_value(s.drop_last()) == 0);
    } else {
        lemma_nat_text(n / 10);
        lemma_digit_char((n % 10) as int);
        lemma_digits_value_push(nat_text(n / 10), digit_char((n % 10) as int));
    }
}

/// Law: the text of an integer determines the integer. Two integers with
/// the same text are equal.
pub proof fn lemma_int_text_injective(i: int, j: int)
    requires
        int_text(i) == int_text(j),
    ensures
        i == j,
{
    let a = nat_text(abs_nat(i));
    let b = nat_text(abs_nat(j));
    lemma_nat_text(abs_nat(i));
    lemma_nat_text(abs_nat(j));
    assert(is_digit(a[0]) && is_digit(b[0]));
    if i < 0 {
        assert(int_text(i)[0] == '-');
        assert(j < 0);
        assert(a =~= int_text(i).drop_first());
        assert(b =~= int_text(j).drop_first());
    } else {
        assert(int_text(i)[0] == a[0]);
        assert(j >= 0);
    }
}

/// `width` zero-padded digits have that length and, when the number fits,
/// read back as the number.
pub proof fn lemma_fixed_digits(n: nat, width: nat)
    ensures
        fixed_digits(n, width).len() == width,
        all_digits(fixed_digits(n, width)),
        n < pow10(width) ==> digits_value(fixed_digits(n, width)) == n,
    decreases width,
{
    if width > 0 {
        lemma_fixed_digits(n / 10, (width - 1) as nat);
        lemma_digit_char((n % 10) as int);
        lemma_digits_value_push(
            fixed_digits(n / 10, (width - 1) as nat),
            digit_char((n % 10) as int),
        );
    }
}

/// A run of digits that is stopped by the end of the string, or by a
/// character that is no digit, ends exactly there.
pub proof fn lemma_digit_run_end(s: Seq<char>, from: int, to: int)
    requires
        0 <= from <= to <= s.len(),
        all_digits(s.subrange(from, to)),
        to < s.len() ==> !is_digit(s[to]),
    ensures
        digit_run_end(s, from) == to,
    decreases to - from,
{
    if from < to {
        assert(s.subrange(from, to)[0] == s[from]);
        assert forall|i: int| 0 <= i < to - (from + 1) implies is_digit(
            #[trigger] s.subrange(from + 1, to)[i],
        ) by {
            assert(s.subrange(from + 1, to)[i] == s.subrange(from, to)[i + 1]);
        }
        lemma_digit_run_end(s, from + 1, to);
    }
}

/// What lies between `from` and the end of its digit run is all digits, and
/// the run stops inside the string.
pub proof fn lemma_digit_run_is_digits(s: Seq<char>, from: int)
    requires
        0 <= from <= s.len(),
    ensures
        from <= digit_run_end(s, from) <= s.len(),
        all_digits(s.subrange(from, digit_run_end(s, from))),
        digit_run_end(s, from) < s.len() ==> !is_digit(s[digit_run_end(s, from)]),
    decreases s.len() - from,
{
    if from < s.len() && is_digit(s[from]) {
        lemma_digit_run_is_digits(s, from + 1);
        let end = digit_run_end(s, from);
        assert forall|i: int| 0 <= i < end - from implies is_digit(
            #[trigger] s.subrange(from, end)[i],
        ) by {
            if i > 0 {
                assert(s.subrange(from, end)[i] == s.subrange(from + 1, end)[i - 1]);
            }
        }
    }
}

/// The characters of `s`, in order.
pub fn chars_of(s: &str) -> (chars: Vec<char>)
    ensures
        chars@ == s@,
{
    let mut chars: Vec<char> = Vec::new();
    for c in it: s.chars()
        invariant
            it.seq() == s@,
            chars@ == s@.take(it.index() as int),
    {
        chars.push(c);
    }
    chars
}

/// The digit that `c` writes, if it is one.
pub fn digit_of(c: char) -> (digit: Option<u8>)
    ensures
        digit is Some <==> is_digit(c),
        digit matches Some(d) ==> d == digit_value(c) && d < 10,
{
    if '0' <= c && c <= '9' {
        Some((c as u32 - '0' as u32) as u8)
    } else {
        None
    }
}

/// The one-character string that writes the digit `d`.
pub fn digit_str(d: u8) -> (s: &'static str)
    requires
        d < 10,
    ensures
        s@ == seq![digit_char(d as int)],
{
    proof {
        reveal_strlit("0");
        reveal_strlit("1");
        reveal_strlit("2");
        reveal_strlit("3");
        reveal_strlit("4");
        reveal_strlit("5");
        reveal_strlit("6");
        reveal_strlit("7");
        reveal_strlit("8");
        reveal_strlit("9");
    }
    let s = match d {
        0 => "0",
        1 => "1",
        2 => "2",
        3 => "3",
        4 => "4",
        5 => "5",
        6 => "6",
        7 => "7",
        8 => "8",
        _ => "9",
    };
    assert(s@ =~= seq![digit_char(d as int)]);
    s
}

/// Appends the shortest decimal text of `n` to `out`.
pub fn append_nat(out: &mut String, n: u64)
    ensures
        final(out)@ == old(out)@ + nat_text(n as nat),
    decreases n,
{
    if n >= 10 {
        append_nat(out, n / 10);
    }
    let ghost before = out@;
    out.append(digit_str((n % 10) as u8));
    proof {
        if n >= 10 {
            assert(out@ =~= old(out)@ + nat_text(n as nat));
        } else {
            assert(before == old(out)@);
            assert(out@ =~= old(out)@ + nat_text(n as nat));
        }
    }
}

/// Appends exactly `width` digits of `n`, zero-padded on the left.
pub fn append_fixed(out: &mut String, n: u64, width: u32)
    ensures
        final(out)@ == old(out)@ + fixed_digits(n as nat, width as nat),
    decreases width,
{
    if width == 0 {
        assert(out@ =~= old(out)@ + fixed_digits(n as nat, 0));
    } else {
        append_fixed(out, n / 10, width - 1);
        out.append(digit_str((n % 10) as u8));
        assert(out@ =~= old(out)@ + fixed_digits(n as nat, width as nat));
    }
}

/// The magnitude of `i`, which always fits in a `u64`.
pub fn magnitude(i: i64) -> (m: u64)
    ensures
        m == (if i < 0 {
            -i
        } else {
            i as int
        }),
{
    if i < 0 {
        ((-(i + 1)) as u64) + 1
    } else {
        i as u64
    }
}

/// Appends the decimal text of the signed integer `i` to `out`.
pub fn append_int(out: &mut String, i: i64)
    ensures
        final(out)@ == old(out)@ + int_text(i as int),
{
    if i < 0 {
        proof {
            reveal_strlit("-");
        }
        out.append("-");
        assert(out@ =~= old(out)@ + seq!['-']);
    }
    append_nat(out, magnitude(i));
    assert(out@ =~= old(out)@ + int_text(i as int));
}

/// The decimal text of the signed integer `i`.
pub fn int_to_string(i: i64) -> (s: String)
    ensures
        s@ == int_text(i as int),
{
    let mut s = String::new();
    append_int(&mut s, i);
    assert(s@ =~= int_text(i as int));
    s
}

} // verus!
