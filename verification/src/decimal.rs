//! Natural numbers in decimal notation.
use vstd::prelude::*;

verus! {

/// Appends a character to a string, as `String::push` documents.
pub assume_specification[ String::push ](s: &mut String, c: char)
    ensures
        final(s)@ == old(s)@.push(c),
;

/// The decimal digit for a number below ten.
pub open spec fn digit(n: nat) -> char
    recommends
        n < 10,
{
    (48 + n) as char
}

/// The decimal notation of `n`, without leading zeros.
pub open spec fn decimal(n: nat) -> Seq<char>
    decreases n,
{
    if n < 10 {
        seq![digit(n)]
    } else {
        decimal(n / 10).push(digit(n % 10))
    }
}

/// Appends the decimal notation of `n` to `out`.
pub fn push_decimal(out: &mut String, n: usize)
    ensures
        final(out)@ == old(out)@ + decimal(n as nat),
    decreases n,
{
    if n >= 10 {
        push_decimal(out, n / 10);
    }
    let d: u8 = (n % 10) as u8;
    out.push((48u8 + d) as char);
}

/// Two numbers with the same decimal notation are equal.
pub proof fn law_decimal_is_injective(a: nat, b: nat)
    requires
        decimal(a) == decimal(b),
    ensures
        a == b,
    decreases a,
{
    lemma_decimal_is_not_empty(a / 10);
    lemma_decimal_is_not_empty(b / 10);
    assert(decimal(a).last() == digit(a % 10));
    assert(decimal(b).last() == digit(b % 10));
    assert(a % 10 == b % 10);
    if a >= 10 && b >= 10 {
        assert(decimal(a).drop_last() == decimal(a / 10));
        assert(decimal(b).drop_last() == decimal(b / 10));
        law_decimal_is_injective(a / 10, b / 10);
    }
}

proof fn lemma_decimal_is_not_empty(n: nat)
    ensures
        decimal(n).len() > 0,
{
}

/// Numbers below ten are written as one digit, and appending a digit to the notation of any other
/// number multiplies it by ten and adds the digit.
pub proof fn law_notation_goes_digit_by_digit(n: nat, d: nat)
    requires
        d < 10,
    ensures
        decimal(d) == seq!["0123456789"@[d as int]],
        n > 0 ==> decimal(10 * n + d) == decimal(n).push("0123456789"@[d as int]),
{
    lemma_digits();
    if n > 0 {
        assert((10 * n + d) / 10 == n);
        assert((10 * n + d) % 10 == d as int);
    }
}

/// A number below ten is appended as one digit. Any other number is appended as the number without
/// its last digit would be, followed by that digit.
pub proof fn law_numbers_are_pushed_digit_by_digit(
    out: &mut String,
    n: usize,
    other: &mut String,
)
    requires
        call_ensures(push_decimal, (out, n), ()),
        call_ensures(push_decimal, (other, (n / 10) as usize), ()),
        out@ == other@,
    ensures
        n < 10 ==> final(out)@ == old(out)@.push("0123456789"@[n as int]),
        n >= 10 ==> final(out)@ == final(other)@.push("0123456789"@[n as int % 10]),
{
    lemma_digits();
}

proof fn lemma_digits()
    ensures
        forall|d: nat| d < 10 ==> #[trigger] digit(d) == "0123456789"@[d as int],
{
    reveal_strlit("0123456789");
}

} // verus!
