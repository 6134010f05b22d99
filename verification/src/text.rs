//! Text helpers: decimal rendering of integers, proved against a
//! character-level specification, and two thin trusted wrappers over `std`
//! string operations that `vstd` gives no specification for.

use vstd::prelude::*;

verus! {

/// Relies on `str`'s `PartialEq`: two string slices are equal exactly when
/// their character sequences are.
#[verifier::external_body]
pub(crate) fn str_eq(a: &str, b: &str) -> (r: bool)
    ensures
        r == (a@ == b@),
{
    a == b
}

/// Relies on `String::push`: appends one character at the end of the string.
#[verifier::external_body]
pub(crate) fn push_char(s: &mut String, c: char)
    ensures
        final(s)@ == old(s)@ + seq![c],
{
    s.push(c);
}

pub const DIGIT_CHARS: [char; 10] = ['0', '1', '2', '3', '4', '5', '6', '7', '8', '9'];

/// The character for one decimal digit.
pub open spec fn spec_digit(d: int) -> char
    recommends
        0 <= d < 10,
{
    DIGIT_CHARS@[d]
}

/// The base-10 text of a natural number, without sign or padding.
pub open spec fn spec_digits(n: nat) -> Seq<char>
    decreases n,
{
    if n < 10 {
        seq![spec_digit(n as int)]
    } else {
        spec_digits(n / 10).push(spec_digit((n % 10) as int))
    }
}

/// The base-10 text of an integer: a leading `-` for negative values,
/// then the digits of the magnitude.
pub open spec fn spec_int_text(n: int) -> Seq<char> {
    if n < 0 {
        seq!['-'] + spec_digits((-n) as nat)
    } else {
        spec_digits(n as nat)
    }
}

/// Appends the base-10 digits of `n` to `s`.
fn push_digits(n: u64, s: &mut String)
    ensures
        final(s)@ == old(s)@ + spec_digits(n as nat),
    decreases n,
{
    if n >= 10 {
        proof {
            assert(n / 10 < n) by (nonlinear_arith)
                requires n >= 10;
        }
        push_digits(n / 10, s);
    }
    let d = n % 10;
    push_char(s, DIGIT_CHARS[d as usize]);
    proof {
        if n >= 10 {
            assert(final(s)@ == old(s)@ + spec_digits((n / 10) as nat) + seq![spec_digit((n % 10) as int)]);
            assert(spec_digits(n as nat) == spec_digits((n / 10) as nat).push(spec_digit((n % 10) as int)));
            assert(final(s)@ =~= old(s)@ + spec_digits(n as nat));
        } else {
            assert(spec_digits(n as nat) == seq![spec_digit(n as int)]);
            assert(final(s)@ =~= old(s)@ + spec_digits(n as nat));
        }
    }
}

/// The base-10 text of an unsigned 64-bit value.
pub fn u64_to_string(n: u64) -> (r: String)
    ensures
        r@ == spec_digits(n as nat),
{
    let mut s = String::new();
    push_digits(n, &mut s);
    proof {
        assert(s@ =~= spec_digits(n as nat));
    }
    s
}

/// The base-10 text of a signed 64-bit value.
pub fn i64_to_string(n: i64) -> (r: String)
    ensures
        r@ == spec_int_text(n as int),
{
    if n >= 0 {
        u64_to_string(n as u64)
    } else {
        let mut s = String::new();
        push_char(&mut s, '-');
        let mag: u64 = if n == i64::MIN {
            9223372036854775808u64
        } else {
            (-n) as u64
        };
        assert(mag as int == -(n as int));
        push_digits(mag, &mut s);
        proof {
            assert(s@ =~= spec_int_text(n as int));
        }
        s
    }
}

} // verus!
