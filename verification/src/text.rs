//! Decimal renderings of integers and the assembling of messages.
use vstd::prelude::*;
use vstd::string::*;

verus! {

/// The decimal digits of a natural number, most significant first, with no
/// leading zero (zero itself is `"0"`).
pub open spec fn nat_digits(n: nat) -> Seq<char>
    decreases n,
{
    if n < 10 {
        seq![digit_char(n)]
    } else {
        nat_digits(n / 10).push(digit_char(n % 10))
    }
}

/// The character of a decimal digit.
pub open spec fn digit_char(d: nat) -> char {
    if d == 0 { '0' } else if d == 1 { '1' } else if d == 2 { '2' } else if d == 3 { '3' }
    else if d == 4 { '4' } else if d == 5 { '5' } else if d == 6 { '6' } else if d == 7 { '7' }
    else if d == 8 { '8' } else { '9' }
}

/// The decimal rendering of an integer, with a leading `-` when negative.
pub open spec fn int_digits(i: int) -> Seq<char> {
    if i < 0 {
        seq!['-'] + nat_digits((-i) as nat)
    } else {
        nat_digits(i as nat)
    }
}

/// The text of one decimal digit.
fn digit_str(d: u128) -> (s: &'static str)
    requires
        d < 10,
    ensures
        s@ == seq![digit_char(d as nat)],
{
    proof {
        reveal_strlit("0"); reveal_strlit("1"); reveal_strlit("2"); reveal_strlit("3"); reveal_strlit("4");
        reveal_strlit("5"); reveal_strlit("6"); reveal_strlit("7"); reveal_strlit("8"); reveal_strlit("9");
    }
    if d == 0 { "0" } else if d == 1 { "1" } else if d == 2 { "2" } else if d == 3 { "3" }
    else if d == 4 { "4" } else if d == 5 { "5" } else if d == 6 { "6" } else if d == 7 { "7" }
    else if d == 8 { "8" } else { "9" }
}

/// Renders an unsigned integer in decimal: its digits, most significant
/// first.
fn u128_to_string(n: u128) -> (s: String)
    ensures
        s@ == nat_digits(n as nat),
    decreases n,
{
    if n < 10 {
        string_of(digit_str(n))
    } else {
        let mut s = u128_to_string(n / 10);
        push(&mut s, digit_str(n % 10));
        s
    }
}

/// Renders an unsigned integer in decimal.
pub(crate) fn u64_to_string(n: u64) -> (s: String)
    ensures
        s@ == nat_digits(n as nat),
{
    u128_to_string(n as u128)
}

/// Renders a signed integer in decimal: a `-` for a negative value, then
/// the digits of its magnitude.
pub(crate) fn i128_to_string(n: i128) -> (s: String)
    ensures
        s@ == int_digits(n as int),
{
    if n < 0 {
        let magnitude: u128 = if n == i128::MIN { 170141183460469231731687303715884105728u128 } else { (-n) as u128 };
        proof { reveal_strlit("-"); }
        let mut s = string_of("-");
        let digits = u128_to_string(magnitude);
        push(&mut s, digits.as_str());
        s
    } else {
        u128_to_string(n as u128)
    }
}

/// What `Debug` shows of a string: the string in double quotes, with the
/// characters that need it escaped. Depends on the string alone.
pub uninterp spec fn debug_quoted(s: Seq<char>) -> Seq<char>;

/// Renders a string as `Debug` shows it. Calls `<str as Debug>::fmt` through
/// `format!`; the result is named `debug_quoted` of the string, which it
/// depends on alone. What the escaping does is not stated.
#[verifier::external_body]
pub(crate) fn debug_str(s: &str) -> (r: String)
    ensures
        r@ == debug_quoted(s@),
{
    format!("{:?}", s)
}

/// Copies a string slice into a new string.
pub(crate) fn string_of(s: &str) -> (r: String)
    ensures
        r@ == s@,
{
    String::from_str(s)
}

/// Appends `tail` to `head`.
pub(crate) fn push(head: &mut String, tail: &str)
    ensures
        final(head)@ == old(head)@ + tail@,
{
    head.append(tail);
}

} // verus!
