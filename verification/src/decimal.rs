//! Decimal renderings of integers, verified against a sequence-level
//! definition; used by the JSON encoding and the textual report.

use vstd::prelude::*;

use crate::bindings::push_char;

verus! {

/// The character for one decimal digit value.
pub open spec fn spec_digit(d: int) -> char {
    if d == 0 {
        '0'
    } else if d == 1 {
        '1'
    } else if d == 2 {
        '2'
    } else if d == 3 {
        '3'
    } else if d == 4 {
        '4'
    } else if d == 5 {
        '5'
    } else if d == 6 {
        '6'
    } else if d == 7 {
        '7'
    } else if d == 8 {
        '8'
    } else {
        '9'
    }
}

/// The decimal digits of a natural number, most significant first, with no
/// sign and no leading zero except for the number 0 itself.
pub open spec fn spec_dec_nat(n: nat) -> Seq<char>
    decreases n,
{
    if n < 10 {
        seq![spec_digit(n as int)]
    } else {
        spec_dec_nat(n / 10) + seq![spec_digit((n % 10) as int)]
    }
}

/// The decimal rendering of an integer: a minus sign for negative values,
/// then the digits of the magnitude.
pub open spec fn spec_dec_int(n: int) -> Seq<char> {
    if n < 0 {
        seq!['-'] + spec_dec_nat((-n) as nat)
    } else {
        spec_dec_nat(n as nat)
    }
}

/// One digit as a character.
fn digit_char(d: u8) -> (r: char)
    requires
        d < 10,
    ensures
        r == spec_digit(d as int),
{
    match d {
        0 => '0',
        1 => '1',
        2 => '2',
        3 => '3',
        4 => '4',
        5 => '5',
        6 => '6',
        7 => '7',
        8 => '8',
        _ => '9',
    }
}

/// Append the decimal digits of `n` to `out`.
pub fn append_dec_u128(out: &mut String, n: u128)
    ensures
        final(out)@ == old(out)@ + spec_dec_nat(n as nat),
    decreases n,
{
    if n < 10 {
        push_char(out, digit_char(n as u8));
    } else {
        append_dec_u128(out, n / 10);
        push_char(out, digit_char((n % 10) as u8));
        proof {
            assert(out@ =~= old(out)@ + spec_dec_nat(n as nat));
        }
    }
}

/// Append the decimal rendering of `n` to `out`.
pub fn append_dec_i64(out: &mut String, n: i64)
    ensures
        final(out)@ == old(out)@ + spec_dec_int(n as int),
{
    if n >= 0 {
        append_dec_u128(out, n as u128);
    } else {
        push_char(out, '-');
        let mag: u128 = (-(n as i128)) as u128;
        append_dec_u128(out, mag);
        proof {
            assert(out@ =~= old(out)@ + spec_dec_int(n as int));
        }
    }
}

/// The decimal rendering of a natural number is made of digit characters
/// only.
pub proof fn lemma_dec_nat_digits(n: nat)
    ensures
        forall|i: int|
            0 <= i < spec_dec_nat(n).len() ==> '0' <= #[trigger] spec_dec_nat(n)[i] <= '9',
    decreases n,
{
    if n < 10 {
        assert(spec_dec_nat(n) == seq![spec_digit(n as int)]);
    } else {
        lemma_dec_nat_digits(n / 10);
        assert forall|i: int| 0 <= i < spec_dec_nat(n).len() implies '0' <= #[trigger] spec_dec_nat(
            n,
        )[i] <= '9' by {
            if i < spec_dec_nat(n / 10).len() {
                assert(spec_dec_nat(n)[i] == spec_dec_nat(n / 10)[i]);
            } else {
                assert(spec_dec_nat(n)[i] == spec_digit((n % 10) as int));
            }
        }
    }
}

} // verus!
