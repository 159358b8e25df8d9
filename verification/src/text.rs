//! Small pieces of text.

use vstd::prelude::*;

verus! {

/// `String::push`: appends a character.
#[verifier::external_body]
pub(crate) fn push_char(text: &mut String, ch: char)
    ensures
        final(text)@ == old(text)@.push(ch),
{
    text.push(ch)
}

/// The character of a hexadecimal digit.
pub open spec fn digit_char(digit: nat) -> char {
    if digit == 0 {
        '0'
    } else if digit == 1 {
        '1'
    } else if digit == 2 {
        '2'
    } else if digit == 3 {
        '3'
    } else if digit == 4 {
        '4'
    } else if digit == 5 {
        '5'
    } else if digit == 6 {
        '6'
    } else if digit == 7 {
        '7'
    } else if digit == 8 {
        '8'
    } else if digit == 9 {
        '9'
    } else if digit == 10 {
        'a'
    } else if digit == 11 {
        'b'
    } else if digit == 12 {
        'c'
    } else if digit == 13 {
        'd'
    } else if digit == 14 {
        'e'
    } else {
        'f'
    }
}

fn digit(value: u64) -> (ch: char)
    requires
        value < 16,
    ensures
        ch == digit_char(value as nat),
{
    match value {
        0 => '0',
        1 => '1',
        2 => '2',
        3 => '3',
        4 => '4',
        5 => '5',
        6 => '6',
        7 => '7',
        8 => '8',
        9 => '9',
        10 => 'a',
        11 => 'b',
        12 => 'c',
        13 => 'd',
        14 => 'e',
        _ => 'f',
    }
}

/// A number in decimal notation.
pub open spec fn decimal(value: nat) -> Seq<char>
    decreases value,
{
    if value < 10 {
        seq![digit_char(value)]
    } else {
        decimal(value / 10).push(digit_char(value % 10))
    }
}

/// Appends a number in decimal notation.
pub fn push_decimal(text: &mut String, value: u64)
    ensures
        final(text)@ == old(text)@ + decimal(value as nat),
    decreases value,
{
    let ghost before = text@;
    if value >= 10 {
        push_decimal(text, value / 10);
    }
    push_char(text, digit(value % 10));
    proof {
        assert(text@ =~= before + decimal(value as nat));
    }
}

/// A number of 16 bits in hexadecimal notation, with four digits.
pub open spec fn hex4(value: u16) -> Seq<char> {
    seq![
        '0',
        'x',
        digit_char((value as nat / 4096) % 16),
        digit_char((value as nat / 256) % 16),
        digit_char((value as nat / 16) % 16),
        digit_char(value as nat % 16),
    ]
}

/// Appends a number of 16 bits in hexadecimal notation.
pub fn push_hex4(text: &mut String, value: u16)
    ensures
        final(text)@ == old(text)@ + hex4(value),
{
    let ghost before = text@;
    let value = value as u64;
    push_char(text, '0');
    push_char(text, 'x');
    push_char(text, digit((value / 4096) % 16));
    push_char(text, digit((value / 256) % 16));
    push_char(text, digit((value / 16) % 16));
    push_char(text, digit(value % 16));
    proof {
        assert(text@ =~= before + hex4(value as u16));
    }
}

} // verus!
