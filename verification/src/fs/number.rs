//! Decimal numbers: how they are read from an interface file and written to one.

use vstd::arithmetic::div_mod::lemma_div_denominator;
use vstd::arithmetic::power::{lemma_pow0, lemma_pow_positive, pow};
use vstd::prelude::*;
use vstd::string::*;

use crate::fs::text;

verus! {

/// Why a text is not a decimal number that fits in 64 bits.
#[derive(Debug, Clone, Copy, PartialEq, Eq, Structural)]
pub enum NumberError {
    /// There is no text at all.
    Empty,
    /// A character other than a digit stands where a digit is expected.
    InvalidDigit,
    /// The digits stand for a number that is too large.
    Overflow,
}

/// The decimal digits.
pub open spec fn is_digit(c: char) -> bool {
    '0' <= c <= '9'
}

/// The number that a sequence of digits stands for.
pub open spec fn digits_value(s: Seq<char>) -> nat
    decreases s.len(),
{
    if s.len() == 0 {
        0
    } else {
        (10 * digits_value(s.drop_last()) + (s.last() as int - '0' as int)) as nat
    }
}

/// How many digits a text starts with.
pub open spec fn digit_run(s: Seq<char>) -> nat
    decreases s.len(),
{
    if s.len() > 0 && is_digit(s.first()) {
        1 + digit_run(s.drop_first())
    } else {
        0
    }
}

/// A text without the one plus sign that it may start with.
pub open spec fn unsigned_part(s: Seq<char>) -> Seq<char> {
    if s.len() > 0 && s.first() == '+' {
        s.drop_first()
    } else {
        s
    }
}

/// What a text says when it is read as an unsigned number of 64 bits: digits, at least one of
/// them, after an optional plus sign. Of several faults the leftmost counts.
pub open spec fn number_of(s: Seq<char>) -> Result<u64, NumberError> {
    let body = unsigned_part(s);
    let run = body.take(digit_run(body) as int);
    if s.len() == 0 {
        Err(NumberError::Empty)
    } else if digits_value(run) > u64::MAX {
        Err(NumberError::Overflow)
    } else if run.len() == 0 || run.len() < body.len() {
        Err(NumberError::InvalidDigit)
    } else {
        Ok(digits_value(run) as u64)
    }
}

/// The character for a digit.
pub open spec fn digit_char(d: nat) -> char {
    ('0' as u32 + d) as char
}

/// A natural number in decimal, without leading zeros.
pub open spec fn decimal(n: nat) -> Seq<char>
    decreases n,
{
    if n < 10 {
        seq![digit_char(n)]
    } else {
        decimal(n / 10).push(digit_char(n % 10))
    }
}

/// An integer in decimal.
pub open spec fn signed_decimal(n: int) -> Seq<char> {
    if n < 0 {
        seq!['-'] + decimal((-n) as nat)
    } else {
        decimal(n as nat)
    }
}

/// `String::push` appends one character.
pub assume_specification[ String::push ](s: &mut String, c: char)
    ensures
        final(s)@ == old(s)@.push(c),
;

proof fn lemma_digit_run(s: Seq<char>)
    ensures
        digit_run(s) <= s.len(),
        forall|i: int| 0 <= i < digit_run(s) ==> is_digit(#[trigger] s[i]),
        digit_run(s) < s.len() ==> !is_digit(s[digit_run(s) as int]),
    decreases s.len(),
{
    if s.len() > 0 && is_digit(s.first()) {
        let t = s.drop_first();
        lemma_digit_run(t);
        assert forall|i: int| 0 <= i < digit_run(s) implies is_digit(#[trigger] s[i]) by {
            if i > 0 {
                assert(s[i] == t[i - 1]);
            }
        }
    }
}

/// The digits that a text starts with are as many as the run of leading digits.
proof fn lemma_digit_run_is(s: Seq<char>, n: nat)
    requires
        n <= s.len(),
        forall|i: int| 0 <= i < n ==> is_digit(#[trigger] s[i]),
        n < s.len() ==> !is_digit(s[n as int]),
    ensures
        digit_run(s) == n,
{
    lemma_digit_run(s);
    if digit_run(s) < n {
        assert(is_digit(s[digit_run(s) as int]));
    }
    if n < digit_run(s) {
        assert(is_digit(s[n as int]));
    }
}

/// More digits never make a smaller number.
proof fn lemma_value_grows(s: Seq<char>, i: int, j: int)
    requires
        0 <= i <= j <= s.len(),
        forall|k: int| 0 <= k < j ==> is_digit(#[trigger] s[k]),
    ensures
        digits_value(s.take(i)) <= digits_value(s.take(j)),
    decreases j - i,
{
    if i < j {
        lemma_value_grows(s, i, j - 1);
        assert(s.take(j).drop_last() == s.take(j - 1));
        assert(is_digit(s[j - 1]));
    }
}

/// Reads a text as an unsigned number of 64 bits.
pub fn parse_u64(s: &str) -> (r: Result<u64, NumberError>)
    ensures
        r == number_of(s@),
{
    let ghost body = unsigned_part(s@);
    let ghost run = digit_run(body);
    let ghost mut at: int = 0;
    let mut value: u64 = 0;
    let mut first: bool = true;
    let mut digits: bool = false;
    proof {
        lemma_digit_run(body);
    }
    for c in it: s.chars()
        invariant
            it.seq() == s@,
            body == unsigned_part(s@),
            run == digit_run(body),
            run <= body.len(),
            forall|k: int| 0 <= k < run ==> is_digit(#[trigger] body[k]),
            run < body.len() ==> !is_digit(body[run as int]),
            first == (it.index() == 0),
            at == (if it.index() > 0 && s@.first() == '+' {
                it.index() - 1
            } else {
                it.index()
            }),
            0 <= at <= run,
            digits == (at > 0),
            value == digits_value(body.take(at)),
    {
        if first && c == '+' {
            first = false;
        } else {
            first = false;
            assert(body[at] == c);
            if c < '0' || c > '9' {
                proof {
                    assert(at == run);
                }
                return Err(NumberError::InvalidDigit);
            }
            assert(at < run);
            let ghost next = body.take(at + 1);
            assert(next.drop_last() == body.take(at));
            let d: u64 = (c as u32 - '0' as u32) as u64;
            assert(digits_value(next) == 10 * value + d);
            proof {
                lemma_value_grows(body, at + 1, run as int);
            }
            match value.checked_mul(10) {
                None => {
                    return Err(NumberError::Overflow);
                },
                Some(tens) => match tens.checked_add(d) {
                    None => {
                        return Err(NumberError::Overflow);
                    },
                    Some(sum) => {
                        value = sum;
                    },
                },
            }
            digits = true;
            proof {
                at = at + 1;
            }
        }
    }
    assert(at == body.len());
    if first {
        Err(NumberError::Empty)
    } else if !digits {
        Err(NumberError::InvalidDigit)
    } else {
        Ok(value)
    }
}

/// Appends a natural number in decimal.
pub fn push_decimal(out: &mut String, n: u64)
    ensures
        final(out)@ == old(out)@ + decimal(n as nat),
    decreases n,
{
    let d: u8 = (n % 10) as u8;
    if n >= 10 {
        push_decimal(out, n / 10);
    }
    // The digits follow each other from '0', which is 48.
    out.push((48 + d) as char);
    assert(final(out)@ == old(out)@ + decimal(n as nat));
}

/// Appends an integer in decimal.
pub fn push_signed_decimal(out: &mut String, n: i32)
    ensures
        final(out)@ == old(out)@ + signed_decimal(n as int),
{
    if n < 0 {
        out.push('-');
        push_decimal(out, (-(n as i64)) as u64);
    } else {
        push_decimal(out, n as u64);
    }
    assert(final(out)@ == old(out)@ + signed_decimal(n as int));
}

proof fn lemma_decimal_value(n: nat)
    ensures
        decimal(n).len() > 0,
        forall|i: int| 0 <= i < decimal(n).len() ==> is_digit(#[trigger] decimal(n)[i]),
        digits_value(decimal(n)) == n,
    decreases n,
{
    let d = digit_char(n % 10);
    assert(is_digit(d) && d as int - '0' as int == n % 10);
    if n >= 10 {
        lemma_decimal_value(n / 10);
        assert(decimal(n).drop_last() == decimal(n / 10));
    } else {
        assert(decimal(n) == seq![d]);
        assert(decimal(n).drop_last() == Seq::<char>::empty());
        assert(digits_value(Seq::<char>::empty()) == 0);
    }
}

/// A number that was written in decimal reads back as the same number.
pub proof fn law_decimal_reads_back(n: u64)
    ensures
        number_of(decimal(n as nat)) == Ok::<u64, NumberError>(n),
{
    let s = decimal(n as nat);
    lemma_decimal_value(n as nat);
    assert(is_digit(s[0]));
    lemma_digit_run_is(s, s.len());
    assert(s.take(s.len() as int) == s);
}

/// A number in decimal has no white space in it, and is not empty.
pub proof fn lemma_decimal_is_a_word(n: int)
    ensures
        signed_decimal(n).len() > 0,
        text::no_space(signed_decimal(n)),
{
    let s = signed_decimal(n);
    if n < 0 {
        let d = decimal((-n) as nat);
        lemma_decimal_value((-n) as nat);
        assert forall|i: int| 0 <= i < s.len() implies !text::is_space(#[trigger] s[i]) by {
            if i > 0 {
                assert(s[i] == d[i - 1]);
                assert(is_digit(d[i - 1]));
            }
        }
    } else {
        lemma_decimal_value(n as nat);
        assert forall|i: int| 0 <= i < s.len() implies !text::is_space(#[trigger] s[i]) by {
            assert(is_digit(s[i]));
        }
    }
}

// ---------------------------------------------------------------------------------------------
// Laws
// ---------------------------------------------------------------------------------------------

/// Decimal is what it is called: the digit `k` places from the end counts the `k`th power of ten,
/// and there is no digit more than the number needs.
pub proof fn law_decimal_digits(n: nat)
    ensures
        decimal(n).len() > 0,
        n < pow(10, decimal(n).len()),
        decimal(n).len() > 1 ==> pow(10, (decimal(n).len() - 1) as nat) <= n,
        forall|k: int|
            0 <= k < decimal(n).len() ==> #[trigger] decimal(n)[decimal(n).len() - 1 - k] as int
                == '0' as int + (n as int / pow(10, k as nat)) % 10,
    decreases n,
{
    let s = decimal(n);
    lemma_pow0(10);
    reveal_with_fuel(pow, 2);
    let d = digit_char(n % 10);
    assert(d as int - '0' as int == n % 10);
    if n < 10 {
        assert(pow(10, 1) == 10);
    } else {
        let t = decimal(n / 10);
        law_decimal_digits(n / 10);
        assert(pow(10, s.len()) == 10 * pow(10, t.len()));
        assert(pow(10, t.len()) == 10 * pow(10, (t.len() - 1) as nat));
        assert forall|k: int| 0 <= k < s.len() implies #[trigger] s[s.len() - 1 - k] as int
            == '0' as int + (n as int / pow(10, k as nat)) % 10 by {
            if k > 0 {
                let j = k - 1;
                assert(s[s.len() - 1 - k] == t[t.len() - 1 - j]);
                lemma_pow_positive(10, j as nat);
                assert(pow(10, k as nat) == 10 * pow(10, j as nat));
                lemma_div_denominator(n as int, 10, pow(10, j as nat));
            }
        }
        if t.len() == 1 {
            assert(pow(10, 1) == 10);
        }
    }
}

/// Below zero there is a minus sign before the digits, and else there is nothing but the digits.
pub proof fn law_sign(n: nat)
    ensures
        signed_decimal(n as int) == decimal(n),
        n > 0 ==> signed_decimal(-(n as int)) == seq!['-'] + decimal(n),
{
}

/// Digits before others that stand for zero do not matter to the value.
proof fn lemma_leading_zeros(zeros: Seq<char>, s: Seq<char>)
    requires
        forall|i: int| 0 <= i < zeros.len() ==> #[trigger] zeros[i] == '0',
    ensures
        digits_value(zeros + s) == digits_value(s),
    decreases zeros.len() + s.len(),
{
    let all = zeros + s;
    if s.len() > 0 {
        lemma_leading_zeros(zeros, s.drop_last());
        assert(all.drop_last() == zeros + s.drop_last());
        assert(all.last() == s.last());
    } else if zeros.len() > 0 {
        let t = zeros.drop_last();
        assert forall|i: int| 0 <= i < t.len() implies #[trigger] t[i] == '0' by {
            assert(t[i] == zeros[i]);
        }
        lemma_leading_zeros(t, s);
        assert(all.drop_last() == t + s);
        assert(all.last() == zeros[zeros.len() - 1]);
    } else {
        assert(all == s);
    }
}

/// A number in decimal reads back, with a plus sign or zeros before it or without, as long as it
/// fits in 64 bits and nothing follows it; where it does not fit, it is too large, whatever
/// follows.
pub proof fn law_number_is_read(plus: bool, zeros: Seq<char>, n: nat, rest: Seq<char>)
    requires
        forall|i: int| 0 <= i < zeros.len() ==> #[trigger] zeros[i] == '0',
        rest.len() > 0 ==> !('0' <= rest.first() <= '9'),
    ensures
        number_of(
            (if plus {
                seq!['+']
            } else {
                Seq::<char>::empty()
            }) + (zeros + decimal(n)) + rest,
        ) == (if n > u64::MAX {
            Err(NumberError::Overflow)
        } else if rest.len() > 0 {
            Err(NumberError::InvalidDigit)
        } else {
            Ok(n as u64)
        }),
{
    let sign = if plus {
        seq!['+']
    } else {
        Seq::<char>::empty()
    };
    let digits = zeros + decimal(n);
    let s = sign + digits + rest;
    let body = digits + rest;
    lemma_decimal_value(n);
    lemma_leading_zeros(zeros, decimal(n));
    assert forall|i: int| 0 <= i < digits.len() implies is_digit(#[trigger] digits[i]) by {
        if i >= zeros.len() {
            assert(digits[i] == decimal(n)[i - zeros.len()]);
        } else {
            assert(digits[i] == zeros[i]);
        }
    }
    assert(is_digit(digits[0]));
    if plus {
        assert(s.first() == '+');
        assert(s.drop_first() == body);
    } else {
        assert(s == body);
        assert(s.first() == digits[0]);
    }
    assert(unsigned_part(s) == body);
    assert forall|i: int| 0 <= i < digits.len() implies is_digit(#[trigger] body[i]) by {
        assert(body[i] == digits[i]);
    }
    if rest.len() > 0 {
        assert(body[digits.len() as int] == rest.first());
    }
    lemma_digit_run_is(body, digits.len());
    assert(body.take(digits.len() as int) == digits);
}

/// Without a digit there is no number: where no text is given that is said, and where a text
/// starts otherwise, or goes on otherwise after a plus sign, the first character that should have
/// been a digit is at fault.
pub proof fn law_no_number_without_digits(rest: Seq<char>)
    requires
        rest.len() > 0 ==> !('0' <= rest.first() <= '9'),
    ensures
        number_of(seq!['+'] + rest) == Err::<u64, _>(NumberError::InvalidDigit),
        rest.len() > 0 && rest.first() != '+' ==> number_of(rest) == Err::<u64, _>(
            NumberError::InvalidDigit,
        ),
        rest.len() == 0 ==> number_of(rest) == Err::<u64, _>(NumberError::Empty),
{
    let s = seq!['+'] + rest;
    assert(s.drop_first() == rest);
    lemma_digit_run_is(rest, 0);
    assert(rest.take(0) == Seq::<char>::empty());
}

} // verus!
