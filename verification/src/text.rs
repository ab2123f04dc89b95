//! Numbers and messages as text.
use vstd::prelude::*;
use vstd::string::*;

verus! {

/// The character of a decimal digit.
pub open spec fn digit(value: nat) -> char {
    ('0' as int + value) as char
}

/// A number in decimal digits, without leading zeros.
pub open spec fn digits(value: nat) -> Seq<char>
    decreases value,
{
    if value < 10 {
        seq![digit(value)]
    } else {
        digits(value / 10).push(digit(value % 10))
    }
}

/// The text of a decimal digit.
pub fn digit_text(value: u64) -> (text: &'static str)
    requires
        value < 10,
    ensures
        text@ == seq![digit(value as nat)],
{
    proof {
        reveal_strlit("0");
        reveal_strlit("1");
        reveal_strlit("2");
        reveal_strlit("3");
        reveal_strlit("4");
        reveal_strlit("5");
        reveal_strlit("6");
        reveal_strlit("7");
        reveal_strlit("8");
        reveal_strlit("9");
    }
    let text: &'static str = if value == 0 {
        "0"
    } else if value == 1 {
        "1"
    } else if value == 2 {
        "2"
    } else if value == 3 {
        "3"
    } else if value == 4 {
        "4"
    } else if value == 5 {
        "5"
    } else if value == 6 {
        "6"
    } else if value == 7 {
        "7"
    } else if value == 8 {
        "8"
    } else {
        "9"
    };
    assert(text@ =~= seq![digit(value as nat)]);
    text
}

/// Writes a number in decimal digits.
pub fn decimal(value: u64) -> (text: String)
    ensures
        text@ == digits(value as nat),
    decreases value,
{
    if value < 10 {
        String::from_str(digit_text(value))
    } else {
        let head: String = decimal(value / 10);
        let text: String = head.concat(digit_text(value % 10));
        assert(text@ =~= digits(value as nat));
        text
    }
}

/// The number that decimal digits stand for.
pub open spec fn number(text: Seq<char>) -> nat
    decreases text.len(),
{
    if text.len() == 0 {
        0
    } else {
        number(text.drop_last()) * 10 + digit_value(text.last())
    }
}

/// The value of a decimal digit.
pub open spec fn digit_value(character: char) -> nat {
    if '0' <= character <= '9' {
        (character as int - '0' as int) as nat
    } else {
        0
    }
}

/// A number written in decimal digits reads back as the number.
pub proof fn digits_read_back(value: nat)
    ensures
        number(digits(value)) == value,
        digits(value).len() > 0,
    decreases value,
{
    if value < 10 {
        assert(digits(value).drop_last() =~= Seq::<char>::empty());
        assert(number(Seq::<char>::empty()) == 0);
    } else {
        digits_read_back(value / 10);
        assert(digits(value).drop_last() =~= digits(value / 10));
    }
}

} // verus!
