//! How numbers are written.

use vstd::prelude::*;

verus! {

/// The number that digits stand for in the given base.
pub open spec fn number_read(text: Seq<char>, base: int) -> int
    decreases text.len(),
{
    if text.len() == 0 {
        0
    } else {
        number_read(text.drop_last(), base) * base + crate::laws::extraction::digit_value(text.last())
    }
}

/// `text` is `n` in decimal, without leading zeros.
pub open spec fn is_decimal(text: Seq<char>, n: int) -> bool {
    &&& text.len() > 0
    &&& forall|i: int| 0 <= i < text.len() ==> '0' <= #[trigger] text[i] <= '9'
    &&& text.len() > 1 ==> text[0] != '0'
    &&& number_read(text, 10) == n
}

/// A number written in decimal is read back as that number, and has no leading zeros.
pub proof fn decimal_is_read_back(n: nat)
    ensures
        is_decimal(crate::text::decimal_text(n), n as int),
    decreases n,
{
    let text = crate::text::decimal_text(n);
    decimal_digit(n % 10);
    if n < 10 {
        assert(text =~= seq![crate::text::hex_char(n)]);
        assert(text.drop_last() =~= Seq::empty());
        assert(number_read(text.drop_last(), 10) == 0);
    } else {
        decimal_is_read_back(n / 10);
        let shorter = crate::text::decimal_text(n / 10);
        assert(text.drop_last() =~= shorter);
        assert(text[0] == shorter[0]);
        assert(text.last() == crate::text::hex_char(n % 10));
        assert forall|i: int| 0 <= i < text.len() implies '0' <= #[trigger] text[i] <= '9' by {
            if i < shorter.len() {
                assert(text[i] == shorter[i]);
            }
        }
        if n / 10 < 10 {
            decimal_digit(n / 10);
            assert(shorter[0] == crate::text::hex_char(n / 10));
        } else {
            decimal_is_read_back(n / 10 / 10);
            assert(shorter.len() > 1);
        }
    }
}

proof fn decimal_digit(d: nat)
    requires
        d < 10,
    ensures
        '0' <= crate::text::hex_char(d) <= '9',
        crate::laws::extraction::digit_value(crate::text::hex_char(d)) == d,
        d > 0 ==> crate::text::hex_char(d) != '0',
{
}

/// A number written in hexadecimal has the width asked for, all in lower case, and is read back as
/// that number where it fits.
pub proof fn hexadecimal_is_read_back(n: nat, width: nat)
    ensures
        crate::text::hex_text(n, width).len() == width,
        forall|i: int|
            0 <= i < width ==> {
                let c = #[trigger] crate::text::hex_text(n, width)[i];
                crate::laws::extraction::is_digit(c) && crate::laws::extraction::lowered(c) == c
            },
        n < vstd::arithmetic::power::pow(16, width) ==> number_read(
            crate::text::hex_text(n, width),
            16,
        ) == n,
    decreases width,
{
    vstd::arithmetic::power::lemma_pow0(16);
    if width > 0 {
        let shorter = (width - 1) as nat;
        vstd::arithmetic::power::lemma_pow_adds(16, 1, shorter);
        vstd::arithmetic::power::lemma_pow1(16);
        hexadecimal_is_read_back(n / 16, shorter);
        let text = crate::text::hex_text(n, width);
        assert(text.drop_last() =~= crate::text::hex_text(n / 16, shorter));
        let d = n % 16;
        assert(d == 0 || d == 1 || d == 2 || d == 3 || d == 4 || d == 5 || d == 6 || d == 7 || d
            == 8 || d == 9 || d == 10 || d == 11 || d == 12 || d == 13 || d == 14 || d == 15);
        assert forall|i: int| 0 <= i < width implies {
            let c = #[trigger] text[i];
            crate::laws::extraction::is_digit(c) && crate::laws::extraction::lowered(c) == c
        } by {
            if i < shorter {
                assert(text[i] == crate::text::hex_text(n / 16, shorter)[i]);
            }
        }
    }
}

} // verus!
