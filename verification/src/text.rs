//! Small helpers on text: comparing it and writing numbers in it.

use vstd::prelude::*;
use vstd::string::StringExecFns;

verus! {

/// The character of a decimal digit.
pub open spec fn digit_char(digit: nat) -> char {
    if digit == 0 {
        '0'
    } else if digit == 1 {
        '1'
    } else if digit == 2 {
        '2'
    } else if digit == 3 {
        '3'
    } else if digit == 4 {
        '4'
    } else if digit == 5 {
        '5'
    } else if digit == 6 {
        '6'
    } else if digit == 7 {
        '7'
    } else if digit == 8 {
        '8'
    } else {
        '9'
    }
}

/// The decimal numeral of `number`, without leading zeros.
pub open spec fn decimal(number: nat) -> Seq<char>
    decreases number,
{
    if number < 10 {
        seq![digit_char(number)]
    } else {
        decimal(number / 10).push(digit_char(number % 10))
    }
}

/// A numeral has at least one digit, and more than one from ten on.
pub proof fn lemma_decimal_len(number: nat)
    ensures
        decimal(number).len() >= 1,
        number >= 10 ==> decimal(number).len() >= 2,
    decreases number,
{
    if number >= 10 {
        lemma_decimal_len(number / 10);
    }
}

/// Different numbers have different numerals.
pub proof fn lemma_decimal_is_injective(first: nat, second: nat)
    requires
        decimal(first) == decimal(second),
    ensures
        first == second,
    decreases first,
{
    lemma_decimal_len(first);
    lemma_decimal_len(second);
    if first < 10 && second < 10 {
        assert(decimal(first)[0] == digit_char(first));
        assert(decimal(second)[0] == digit_char(second));
    } else if first >= 10 && second >= 10 {
        let upper = decimal(first / 10);
        let lower = decimal(second / 10);
        let whole = decimal(first);
        assert(whole == upper.push(digit_char(first % 10)));
        assert(whole == lower.push(digit_char(second % 10)));
        assert(whole.last() == digit_char(first % 10));
        assert(whole.last() == digit_char(second % 10));
        assert(first % 10 == second % 10);
        assert(whole.drop_last() =~= upper);
        assert(whole.drop_last() =~= lower);
        lemma_decimal_is_injective(first / 10, second / 10);
    }
}

/// Whether `text` reads `wanted`.
pub fn same_text(text: &String, wanted: &str) -> (same: bool)
    ensures
        same == (text@ == wanted@),
{
    let wanted = wanted.to_owned();
    *text == wanted
}

/// The text of a decimal digit.
fn digit_str(digit: usize) -> (text: &'static str)
    requires
        digit < 10,
    ensures
        text@ == seq![digit_char(digit as nat)],
{
    proof {
        reveal_strlit("0");
        reveal_strlit("1");
        reveal_strlit("2");
        reveal_strlit("3");
        reveal_strlit("4");
        reveal_strlit("5");
        reveal_strlit("6");
        reveal_strlit("7");
        reveal_strlit("8");
        reveal_strlit("9");
    }
    let text = match digit {
        0 => "0",
        1 => "1",
        2 => "2",
        3 => "3",
        4 => "4",
        5 => "5",
        6 => "6",
        7 => "7",
        8 => "8",
        _ => "9",
    };
    assert(text@ =~= seq![digit_char(digit as nat)]);
    text
}

/// The decimal numeral of `number`, without leading zeros.
pub fn decimal_string(number: usize) -> (text: String)
    ensures
        text@ == decimal(number as nat),
    decreases number,
{
    if number < 10 {
        digit_str(number).to_owned()
    } else {
        let mut text = decimal_string(number / 10);
        text.append(digit_str(number % 10));
        assert(text@ =~= decimal(number as nat));
        text
    }
}

} // verus!
