//! Texts made of parts.

use vstd::prelude::*;
use vstd::string::*;

verus! {

/// The first text with the second behind it.
pub fn joined(first: &str, second: &str) -> (result: String)
    ensures
        result@ == first@ + second@,
{
    let mut result = first.to_owned();
    result.append(second);
    result
}

/// Three texts behind each other.
pub fn joined3(first: &str, second: &str, third: &str) -> (result: String)
    ensures
        result@ == first@ + second@ + third@,
{
    let mut result = joined(first, second);
    result.append(third);
    result
}

/// Four texts behind each other.
pub fn joined4(first: &str, second: &str, third: &str, fourth: &str) -> (result: String)
    ensures
        result@ == first@ + second@ + third@ + fourth@,
{
    let mut result = joined3(first, second, third);
    result.append(fourth);
    result
}

/// Whether two texts are the same.
pub fn same_text(first: &str, second: &str) -> (result: bool)
    ensures
        result == (first@ == second@),
{
    first.to_owned() == second.to_owned()
}

/// The character of a decimal digit.
pub open spec fn digit_char(digit: int) -> char {
    if digit == 0 {
        '0'
    } else if digit == 1 {
        '1'
    } else if digit == 2 {
        '2'
    } else if digit == 3 {
        '3'
    } else if digit == 4 {
        '4'
    } else if digit == 5 {
        '5'
    } else if digit == 6 {
        '6'
    } else if digit == 7 {
        '7'
    } else if digit == 8 {
        '8'
    } else {
        '9'
    }
}

/// The decimal digits of a number.
pub open spec fn number_chars(number: nat) -> Seq<char>
    decreases number,
{
    if number < 10 {
        seq![digit_char(number as int)]
    } else {
        number_chars(number / 10).push(digit_char((number % 10) as int))
    }
}

/// A decimal digit.
fn digit_text(digit: u64) -> (result: &'static str)
    requires
        digit < 10,
    ensures
        result@ == seq![digit_char(digit as int)],
{
    proof {
        reveal_strlit("0");
        reveal_strlit("1");
        reveal_strlit("2");
        reveal_strlit("3");
        reveal_strlit("4");
        reveal_strlit("5");
        reveal_strlit("6");
        reveal_strlit("7");
        reveal_strlit("8");
        reveal_strlit("9");
    }
    let result = match digit {
        0 => "0",
        1 => "1",
        2 => "2",
        3 => "3",
        4 => "4",
        5 => "5",
        6 => "6",
        7 => "7",
        8 => "8",
        _ => "9",
    };
    assert(result@ =~= seq![digit_char(digit as int)]);
    result
}

/// The decimal digits of a number.
pub fn number_text(number: u64) -> (result: String)
    ensures
        result@ == number_chars(number as nat),
    decreases number,
{
    if number < 10 {
        digit_text(number).to_owned()
    } else {
        let mut result = number_text(number / 10);
        let ghost front = result@;
        result.append(digit_text(number % 10));
        assert(result@ =~= front.push(digit_char((number % 10) as int)));
        result
    }
}

/// The digit that a character stands for.
pub proof fn lemma_digit_char(a: int, b: int)
    requires
        0 <= a < 10,
        0 <= b < 10,
        digit_char(a) == digit_char(b),
    ensures
        a == b,
{
}

/// Numbers with the same digits are the same.
pub proof fn law_number_text_is_unique(a: nat, b: nat)
    requires
        number_chars(a) == number_chars(b),
    ensures
        a == b,
    decreases a,
{
    let x = number_chars(a);
    assert(x.last() == digit_char((a % 10) as int));
    assert(number_chars(b).last() == digit_char((b % 10) as int));
    lemma_digit_char((a % 10) as int, (b % 10) as int);
    if a >= 10 {
        lemma_number_chars_len(a / 10);
        if b >= 10 {
            assert(number_chars(a / 10) =~= x.drop_last());
            assert(number_chars(b / 10) =~= x.drop_last());
            law_number_text_is_unique(a / 10, b / 10);
        }
    } else if b >= 10 {
        lemma_number_chars_len(b / 10);
    }
}

/// A number has a digit.
proof fn lemma_number_chars_len(number: nat)
    ensures
        number_chars(number).len() > 0,
{
}

/// The first text comes before the second: texts are ordered by their first different character.
pub open spec fn text_less(first: Seq<char>, second: Seq<char>) -> bool
    decreases first.len(),
{
    if second.len() == 0 {
        false
    } else if first.len() == 0 {
        true
    } else if first[0] != second[0] {
        (first[0] as int) < (second[0] as int)
    } else {
        text_less(first.skip(1), second.skip(1))
    }
}

/// Of two different texts one comes first.
pub proof fn lemma_text_order(first: Seq<char>, second: Seq<char>)
    ensures
        first == second || text_less(first, second) || text_less(second, first),
        !(text_less(first, second) && text_less(second, first)),
    decreases first.len(),
{
    if first.len() == 0 && second.len() == 0 {
        assert(first =~= second);
    } else if first.len() > 0 && second.len() > 0 {
        if first[0] == second[0] {
            lemma_text_order(first.skip(1), second.skip(1));
            if first.skip(1) == second.skip(1) {
                assert(first =~= seq![first[0]] + first.skip(1));
                assert(second =~= seq![second[0]] + second.skip(1));
            }
        } else {
            assert(first[0] as int != second[0] as int);
        }
    }
}

} // verus!
