//! Rendering unsigned numbers as decimal and uppercase-hexadecimal text,
//! appended character by character to a `String`.

use vstd::prelude::*;

verus! {

/// The character for decimal digit `d`.
pub open spec fn spec_dec_digit(d: nat) -> char
    recommends
        d < 10,
{
    ((0x30 + d) as u8) as char
}

/// The character for hexadecimal digit `d`, upper case.
pub open spec fn spec_hex_digit(d: nat) -> char
    recommends
        d < 16,
{
    if d < 10 {
        ((0x30 + d) as u8) as char
    } else {
        ((0x41 + (d - 10)) as u8) as char
    }
}

/// The decimal rendering of `n`, most significant digit first, no leading
/// zeroes (`0` renders as one digit).
pub open spec fn spec_dec_chars(n: nat) -> Seq<char>
    decreases n,
{
    if n < 10 {
        seq![spec_dec_digit(n)]
    } else {
        spec_dec_chars(n / 10).push(spec_dec_digit(n % 10))
    }
}

/// The uppercase hexadecimal rendering of `n`, most significant digit first,
/// no leading zeroes (`0` renders as one digit).
pub open spec fn spec_hex_chars(n: nat) -> Seq<char>
    decreases n,
{
    if n < 16 {
        seq![spec_hex_digit(n)]
    } else {
        spec_hex_chars(n / 16).push(spec_hex_digit(n % 16))
    }
}

/// Relies on `String::push`: it appends exactly the given character.
#[verifier::external_body]
pub fn push_char(s: &mut String, c: char)
    ensures
        final (s)@ == old(s)@.push(c),
{
    s.push(c)
}

/// Appends the decimal rendering of `n` to `s`.
pub fn append_dec(s: &mut String, n: u32)
    ensures
        final (s)@ == old(s)@ + spec_dec_chars(n as nat),
    decreases n,
{
    if n >= 10 {
        append_dec(s, n / 10);
    }
    let d = (n % 10) as u8;
    push_char(s, (0x30 + d) as char);
    proof {
        if n < 10 {
            assert(old(s)@ + spec_dec_chars(n as nat) =~= old(s)@.push(spec_dec_digit(n as nat)));
        } else {
            assert(old(s)@ + spec_dec_chars(n as nat) =~= (old(s)@ + spec_dec_chars(
                (n / 10) as nat,
            )).push(spec_dec_digit((n % 10) as nat)));
        }
    }
}

/// Appends the uppercase hexadecimal rendering of `n` to `s`.
pub fn append_hex(s: &mut String, n: u32)
    ensures
        final (s)@ == old(s)@ + spec_hex_chars(n as nat),
    decreases n,
{
    if n >= 16 {
        append_hex(s, n / 16);
    }
    let d = (n % 16) as u8;
    let c = if d < 10 {
        (0x30 + d) as char
    } else {
        (0x41 + (d - 10)) as char
    };
    push_char(s, c);
    proof {
        if n < 16 {
            assert(old(s)@ + spec_hex_chars(n as nat) =~= old(s)@.push(spec_hex_digit(n as nat)));
        } else {
            assert(old(s)@ + spec_hex_chars(n as nat) =~= (old(s)@ + spec_hex_chars(
                (n / 16) as nat,
            )).push(spec_hex_digit((n % 16) as nat)));
        }
    }
}

} // verus!
