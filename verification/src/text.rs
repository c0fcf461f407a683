//! Small string helpers: appending characters and decimal numerals.

use vstd::prelude::*;

verus! {

/// Appends one character to a string.
///
/// Trusted: this is `String::push` of the standard library, which adds the
/// character at the end and leaves what was there before in place.
#[verifier::external_body]
pub(crate) fn push_char(s: &mut String, c: char)
    ensures
        final(s)@ == old(s)@.push(c),
{
    s.push(c)
}

/// The character that writes the digit `d`.
pub open spec fn digit_char(d: nat) -> char
    recommends
        d < 10,
{
    (48 + d) as char
}

/// The decimal numeral of `n`, most significant digit first, without leading
/// zeros (`0` is written `"0"`).
pub open spec fn decimal_digits(n: nat) -> Seq<char>
    decreases n,
{
    if n < 10 {
        seq![digit_char(n)]
    } else {
        decimal_digits(n / 10).push(digit_char(n % 10))
    }
}

/// The number that a sequence of decimal digits denotes.
pub open spec fn decimal_value(digits: Seq<char>) -> nat
    decreases digits.len(),
{
    if digits.len() == 0 {
        0
    } else {
        (decimal_value(digits.drop_last()) * 10 + (digits.last() as nat - 48)) as nat
    }
}

/// Reading back the numeral of `n` gives `n`.
pub proof fn lemma_decimal_round_trip(n: nat)
    ensures
        decimal_value(decimal_digits(n)) == n,
    decreases n,
{
    if n < 10 {
        let s = seq![digit_char(n)];
        assert(s.drop_last().len() == 0);
        assert(s.last() == digit_char(n));
        assert(decimal_value(s.drop_last()) == 0);
    } else {
        lemma_decimal_round_trip(n / 10);
        let front = decimal_digits(n / 10);
        let s = front.push(digit_char(n % 10));
        assert(s.drop_last() =~= front);
        assert(s.last() == digit_char(n % 10));
    }
}

/// Two numbers with the same decimal numeral are equal.
pub proof fn lemma_decimal_digits_injective(a: nat, b: nat)
    requires
        decimal_digits(a) == decimal_digits(b),
    ensures
        a == b,
{
    lemma_decimal_round_trip(a);
    lemma_decimal_round_trip(b);
}

fn digit_of(d: usize) -> (c: char)
    requires
        d < 10,
    ensures
        c == digit_char(d as nat),
{
    let b: u8 = 48u8 + (d as u8);
    b as char
}

/// Appends the decimal numeral of `n` to `out`.
pub fn push_decimal(out: &mut String, n: usize)
    ensures
        final(out)@ == old(out)@ + decimal_digits(n as nat),
    decreases n,
{
    if n >= 10 {
        push_decimal(out, n / 10);
    }
    push_char(out, digit_of(n % 10));
    proof {
        if n >= 10 {
            assert(old(out)@ + decimal_digits(n as nat) =~= (old(out)@ + decimal_digits(
                (n / 10) as nat,
            )).push(digit_char((n % 10) as nat)));
        } else {
            assert(old(out)@ + decimal_digits(n as nat) =~= old(out)@.push(digit_char(n as nat)));
        }
    }
}

} // verus!
