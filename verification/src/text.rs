//! Numbers written out as text: zero-padded hexadecimal and plain decimal.

use vstd::prelude::*;

verus! {

/// `String::push`: appends one character to the end of the string and changes nothing else.
pub assume_specification[ String::push ](s: &mut String, c: char)
    ensures
        final(s)@ == old(s)@.push(c),
;

/// The lower-case character of a hexadecimal digit.
pub open spec fn hex_char(digit: nat) -> char
    recommends
        digit < 16,
{
    seq![
        '0', '1', '2', '3', '4', '5', '6', '7', '8', '9', 'a', 'b', 'c', 'd', 'e', 'f',
    ][digit as int]
}

/// A character that `hex_char` gives.
pub open spec fn is_lower_hex(c: char) -> bool {
    '0' <= c <= '9' || 'a' <= c <= 'f'
}

/// The `width` lowest hexadecimal digits of `value`, most significant first.
pub open spec fn hex_text(value: nat, width: nat) -> Seq<char>
    decreases width,
{
    if width == 0 {
        Seq::empty()
    } else {
        hex_text(value / 16, (width - 1) as nat).push(hex_char(value % 16))
    }
}

/// `value` in decimal, without leading zeros.
pub open spec fn decimal_text(value: nat) -> Seq<char>
    decreases value,
{
    if value < 10 {
        seq![hex_char(value)]
    } else {
        decimal_text(value / 10).push(hex_char(value % 10))
    }
}

/// The character of a hexadecimal digit.
pub(crate) fn digit_to_char(digit: u8) -> (c: char)
    requires
        digit < 16,
    ensures
        c == hex_char(digit as nat),
{
    match digit {
        0 => '0',
        1 => '1',
        2 => '2',
        3 => '3',
        4 => '4',
        5 => '5',
        6 => '6',
        7 => '7',
        8 => '8',
        9 => '9',
        10 => 'a',
        11 => 'b',
        12 => 'c',
        13 => 'd',
        14 => 'e',
        _ => 'f',
    }
}

/// Writes `value` as exactly `width` lower-case hexadecimal digits.
pub fn to_hex(value: u128, width: usize) -> (text: String)
    ensures
        text@ == hex_text(value as nat, width as nat),
    decreases width,
{
    if width == 0 {
        String::new()
    } else {
        let mut text = to_hex(value / 16, width - 1);
        text.push(digit_to_char((value % 16) as u8));
        text
    }
}

/// Writes `value` in decimal.
pub fn to_decimal(value: u64) -> (text: String)
    ensures
        text@ == decimal_text(value as nat),
    decreases value,
{
    if value < 10 {
        let mut text = String::new();
        text.push(digit_to_char(value as u8));
        assert(text@ =~= decimal_text(value as nat));
        text
    } else {
        let mut text = to_decimal(value / 10);
        text.push(digit_to_char((value % 10) as u8));
        text
    }
}

/// Hexadecimal text has the width asked for and only lower-case hexadecimal digits.
pub proof fn hex_text_shape(value: nat, width: nat)
    ensures
        hex_text(value, width).len() == width,
        forall|i: int| 0 <= i < width ==> is_lower_hex(#[trigger] hex_text(value, width)[i]),
    decreases width,
{
    if width > 0 {
        hex_text_shape(value / 16, (width - 1) as nat);
    }
}

/// Hexadecimal text of a width that holds both numbers tells them apart.
pub proof fn hex_text_is_injective(a: nat, b: nat, width: nat)
    requires
        a < vstd::arithmetic::power::pow(16, width),
        b < vstd::arithmetic::power::pow(16, width),
        hex_text(a, width) == hex_text(b, width),
    ensures
        a == b,
    decreases width,
{
    vstd::arithmetic::power::lemma_pow0(16);
    if width > 0 {
        let shorter = (width - 1) as nat;
        vstd::arithmetic::power::lemma_pow_adds(16, 1, shorter);
        vstd::arithmetic::power::lemma_pow1(16);
        let text_a = hex_text(a, width);
        let text_b = hex_text(b, width);
        assert(text_a.last() == hex_char(a % 16) && text_b.last() == hex_char(b % 16));
        assert(text_a.drop_last() =~= hex_text(a / 16, shorter));
        assert(text_b.drop_last() =~= hex_text(b / 16, shorter));
        hex_text_is_injective(a / 16, b / 16, shorter);
    }
}

} // verus!
