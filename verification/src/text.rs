//! Numbers as text.

use vstd::prelude::*;

verus! {

/// The digit of value `value`, in lower case.
pub open spec fn digit_char(value: int) -> char {
    if value < 10 {
        (0x30 + value) as char
    } else {
        (0x57 + value) as char
    }
}

/// `number` in positional notation to `base`, without leading zeroes.
pub open spec fn digits(number: nat, base: nat) -> Seq<char>
    decreases number,
{
    if number < base || base < 2 {
        seq![digit_char(number as int)]
    } else {
        proof {
            assert(number / base < number) by (nonlinear_arith)
                requires
                    number >= base,
                    base >= 2,
            ;
        }
        digits(number / base, base).push(digit_char((number % base) as int))
    }
}

/// `number` in decimal.
pub open spec fn decimal(number: u64) -> Seq<char> {
    digits(number as nat, 10)
}

/// `number` in hexadecimal, after `0x`.
pub open spec fn prefixed_hex(number: u64) -> Seq<char> {
    "0x"@ + digits(number as nat, 16)
}

fn digit_text(value: u64) -> (text: &'static str)
    requires
        value < 16,
    ensures
        text@ == seq![digit_char(value as int)],
{
    proof {
        reveal_strlit("0");
        reveal_strlit("1");
        reveal_strlit("2");
        reveal_strlit("3");
        reveal_strlit("4");
        reveal_strlit("5");
        reveal_strlit("6");
        reveal_strlit("7");
        reveal_strlit("8");
        reveal_strlit("9");
        reveal_strlit("a");
        reveal_strlit("b");
        reveal_strlit("c");
        reveal_strlit("d");
        reveal_strlit("e");
        reveal_strlit("f");
    }
    match value {
        0 => "0",
        1 => "1",
        2 => "2",
        3 => "3",
        4 => "4",
        5 => "5",
        6 => "6",
        7 => "7",
        8 => "8",
        9 => "9",
        10 => "a",
        11 => "b",
        12 => "c",
        13 => "d",
        14 => "e",
        _ => "f",
    }
}

fn digits_text(number: u64, base: u64) -> (text: String)
    requires
        2 <= base <= 16,
    ensures
        text@ == digits(number as nat, base as nat),
    decreases number,
{
    if number < base {
        digit_text(number).to_owned()
    } else {
        assert(number / base < number) by (nonlinear_arith)
            requires
                number >= base,
                base >= 2,
        ;
        let mut text = digits_text(number / base, base);
        text.append(digit_text(number % base));
        assert(text@ =~= digits(number as nat, base as nat));
        text
    }
}

/// `number` in decimal.
pub fn decimal_text(number: u64) -> (text: String)
    ensures
        text@ == decimal(number),
{
    digits_text(number, 10)
}

/// `number` in hexadecimal, after `0x`.
pub fn prefixed_hex_text(number: u64) -> (text: String)
    ensures
        text@ == prefixed_hex(number),
{
    "0x".to_owned().concat(digits_text(number, 16).as_str())
}

/// What a digit is worth, in either notation.
pub open spec fn digit_value(digit: char) -> int {
    if '0' <= digit <= '9' {
        digit as int - '0' as int
    } else if 'a' <= digit <= 'f' {
        digit as int - 'a' as int + 10
    } else {
        -1
    }
}

/// The number that `text` denotes to `base`.
pub open spec fn number_of(text: Seq<char>, base: nat) -> int
    decreases text.len(),
{
    if text.len() == 0 {
        0
    } else {
        number_of(text.drop_last(), base) * base + digit_value(text.last())
    }
}

/// A number can be read back from its text, which has only digits of the base and
/// no leading zero.
pub proof fn law_number_is_read_back(number: nat, base: nat)
    requires
        2 <= base <= 16,
    ensures
        number_of(digits(number, base), base) == number,
        digits(number, base).len() > 0,
        forall|i: int|
            0 <= i < digits(number, base).len() ==> 0 <= digit_value(
                #[trigger] digits(number, base)[i],
            ) < base,
        number > 0 ==> digits(number, base)[0] != '0',
    decreases number,
{
    let text = digits(number, base);
    if number < base {
        assert(text.drop_last() =~= Seq::empty());
        assert(number_of(text.drop_last(), base) == 0);
        assert(number_of(text.drop_last(), base) * base == 0) by (nonlinear_arith)
            requires
                number_of(text.drop_last(), base) == 0,
        ;
    } else {
        let rest = number / base;
        assert(rest < number && rest > 0) by (nonlinear_arith)
            requires
                number >= base,
                base >= 2,
                rest == number / base,
        ;
        law_number_is_read_back(rest, base);
        assert(text.drop_last() =~= digits(rest, base));
        assert(0 <= number % base < base && rest * base + number % base == number)
            by (nonlinear_arith)
            requires
                base >= 2,
                rest == number / base,
        ;
        assert forall|i: int| 0 <= i < text.len() implies 0 <= digit_value(#[trigger] text[i])
            < base by {
            if i < text.len() - 1 {
                assert(text[i] == digits(rest, base)[i]);
            }
        }
    }
}

/// A number is read back from its decimal text, and from its hexadecimal text after
/// the prefix.
pub proof fn law_printed_number_is_read_back(number: u64)
    ensures
        number_of(decimal(number), 10) == number,
        number > 0 ==> decimal(number)[0] != '0',
        prefixed_hex(number).len() > 2,
        prefixed_hex(number)[0] == '0',
        prefixed_hex(number)[1] == 'x',
        number_of(prefixed_hex(number).skip(2), 16) == number,
        number > 0 ==> prefixed_hex(number)[2] != '0',
{
    reveal_strlit("0x");
    law_number_is_read_back(number as nat, 10);
    law_number_is_read_back(number as nat, 16);
    assert(prefixed_hex(number).skip(2) =~= digits(number as nat, 16));
}

} // verus!
