//! Unsigned integers in decimal notation.

use vstd::prelude::*;
use vstd::string::StringExecFns;

verus! {

/// The character of a decimal digit.
pub open spec fn digit_char(digit: nat) -> char {
    (48 + digit) as char
}

/// A number in decimal notation, without leading zeros.
pub open spec fn decimal(n: nat) -> Seq<char>
    decreases n,
{
    if n < 10 {
        seq![digit_char(n)]
    } else {
        decimal(n / 10).push(digit_char(n % 10))
    }
}

pub open spec fn is_digit(c: char) -> bool {
    '0' <= c <= '9'
}

pub open spec fn all_digits(text: Seq<char>) -> bool {
    forall|i: int| 0 <= i < text.len() ==> is_digit(#[trigger] text[i])
}

/// The number that a sequence of decimal digits denotes.
pub open spec fn digits_value(digits: Seq<char>) -> int
    decreases digits.len(),
{
    if digits.len() == 0 {
        0
    } else {
        10 * digits_value(digits.drop_last()) + (digits.last() as int - 48)
    }
}

/// The digits of a number that may start with a plus sign.
pub open spec fn without_sign(text: Seq<char>) -> Seq<char> {
    if text.len() > 0 && text[0] == '+' {
        text.skip(1)
    } else {
        text
    }
}

/// The number that a text denotes: an optional plus sign, then at least one digit and nothing
/// else, with a value that fits in 64 bits.
pub open spec fn parsed_u64(text: Seq<char>) -> Option<u64> {
    let digits = without_sign(text);
    if digits.len() > 0 && all_digits(digits) && digits_value(digits) <= u64::MAX {
        Some(digits_value(digits) as u64)
    } else {
        None
    }
}

fn digit_text(digit: u64) -> (text: &'static str)
    requires
        digit < 10,
    ensures
        text@ == seq![digit_char(digit as nat)],
{
    proof {
        reveal_strlit("0");
        reveal_strlit("1");
        reveal_strlit("2");
        reveal_strlit("3");
        reveal_strlit("4");
        reveal_strlit("5");
        reveal_strlit("6");
        reveal_strlit("7");
        reveal_strlit("8");
        reveal_strlit("9");
    }
    let text: &'static str = match digit {
        0 => "0",
        1 => "1",
        2 => "2",
        3 => "3",
        4 => "4",
        5 => "5",
        6 => "6",
        7 => "7",
        8 => "8",
        _ => "9",
    };
    assert(text@ =~= seq![digit_char(digit as nat)]);
    text
}

/// Writes a number in decimal notation.
pub fn format_u64(n: u64) -> (text: String)
    ensures
        text@ == decimal(n as nat),
    decreases n,
{
    if n < 10 {
        digit_text(n).to_string()
    } else {
        let mut text = format_u64(n / 10);
        text.append(digit_text(n % 10));
        assert(text@ =~= decimal(n as nat));
        text
    }
}

proof fn lemma_digits_value_grows(digits: Seq<char>, n: int)
    requires
        all_digits(digits),
        0 <= n <= digits.len(),
    ensures
        0 <= digits_value(digits.take(n)) <= digits_value(digits),
    decreases digits.len(),
{
    if n == digits.len() {
        assert(digits.take(n) =~= digits);
        if n > 0 {
            lemma_digits_value_grows(digits.drop_last(), n - 1);
        }
    } else {
        let shorter = digits.drop_last();
        assert(shorter.take(n) =~= digits.take(n));
        lemma_digits_value_grows(shorter, n);
        assert(is_digit(digits.last()));
    }
}

/// Reads a number in decimal notation, with or without a plus sign.
pub fn parse_u64(text: &str) -> (value: Option<u64>)
    ensures
        value == parsed_u64(text@),
{
    if !text.is_ascii() {
        proof {
            let i = choose|i: int|
                0 <= i < text@.len() && !('\0' <= #[trigger] text@[i] <= '\u{7f}');
            assert(!is_digit(text@[i]));
            if text@[0] == '+' {
                assert(without_sign(text@)[i - 1] == text@[i]);
            }
        }
        return None;
    }
    let bytes = text.as_bytes();
    let start: usize = if bytes.len() > 0 && bytes[0] == 43 { 1 } else { 0 };
    let ghost digits = without_sign(text@);
    assert(bytes@.len() == text@.len());
    assert(digits =~= text@.skip(start as int));
    if start == bytes.len() {
        return None;
    }
    let mut value: u64 = 0;
    let mut i: usize = start;
    assert(digits.take(0) =~= Seq::empty());
    while i < bytes.len()
        invariant
            start <= i <= bytes.len(),
            start < bytes.len(),
            bytes@ == Seq::new(text@.len(), |k: int| text@[k] as u8),
            vstd::utf8::is_ascii_chars(text@),
            digits == without_sign(text@),
            digits == text@.skip(start as int),
            value == digits_value(digits.take(i - start)),
            all_digits(digits.take(i - start)),
        decreases bytes.len() - i,
    {
        let byte = bytes[i];
        let ghost k = i - start;
        assert(digits[k] == text@[i as int]);
        if byte < 48 || byte > 57 {
            assert(!is_digit(digits[k]));
            return None;
        }
        let digit: u64 = (byte - 48) as u64;
        proof {
            assert(digits.take(k + 1).drop_last() =~= digits.take(k));
            assert(digits.take(k + 1).last() == digits[k]);
            if all_digits(digits) {
                lemma_digits_value_grows(digits, k + 1);
            }
        }
        let tens: u64 = match value.checked_mul(10) {
            Some(tens) => tens,
            None => return None,
        };
        value = match tens.checked_add(digit) {
            Some(sum) => sum,
            None => return None,
        };
        i = i + 1;
    }
    assert(digits.take(i - start) =~= digits);
    Some(value)
}

/// Decimal notation is made of digits, at least one of them.
pub proof fn lemma_decimal_digits(n: nat)
    ensures
        decimal(n).len() > 0,
        all_digits(decimal(n)),
    decreases n,
{
    if n >= 10 {
        lemma_decimal_digits(n / 10);
    }
}

proof fn lemma_decimal_value(n: nat)
    ensures
        digits_value(decimal(n)) == n,
    decreases n,
{
    if n < 10 {
        assert(decimal(n).drop_last() =~= Seq::empty());
        assert(digits_value(Seq::empty()) == 0);
    } else {
        lemma_decimal_value(n / 10);
        assert(decimal(n).drop_last() =~= decimal(n / 10));
    }
}

/// A number below ten is written as its digit.
pub proof fn law_digit_is_written_as_itself(n: nat)
    requires
        n < 10,
    ensures
        decimal(n).len() == 1,
        decimal(n)[0] as int == '0' as int + n,
{
}

/// Other numbers are written as their tens, and then the digit that is left.
pub proof fn law_tens_are_written_first(n: nat)
    requires
        n >= 10,
    ensures
        decimal(n) == decimal(n / 10) + decimal(n % 10),
{
    assert(decimal(n) =~= decimal(n / 10) + decimal(n % 10));
}

/// A digit reads as its value.
pub proof fn law_digit_is_read_as_itself(digit: char)
    requires
        '0' <= digit <= '9',
    ensures
        parsed_u64(seq![digit]) == Some((digit as int - '0' as int) as u64),
{
    let text = seq![digit];
    assert(text.drop_last() =~= Seq::empty());
    assert(digits_value(Seq::empty()) == 0);
    assert(digits_value(text) == digit as int - 48);
}

/// A digit after a number counts the number ten times and adds its own value, as long as that
/// fits in 64 bits.
pub proof fn law_next_digit_is_read(text: Seq<char>, value: u64, digit: char)
    requires
        parsed_u64(text) == Some(value),
        '0' <= digit <= '9',
    ensures
        parsed_u64(text.push(digit)) == if 10 * value + (digit as int - '0' as int) <= u64::MAX {
            Some((10 * value + (digit as int - '0' as int)) as u64)
        } else {
            None
        },
{
    let digits = without_sign(text);
    let more = without_sign(text.push(digit));
    assert(more =~= digits.push(digit));
    assert(more.drop_last() =~= digits);
    assert(all_digits(more));
    lemma_digits_value_grows(digits, digits.len() as int);
}

/// A text that is too large a number stays too large with more digits.
pub proof fn law_too_large_stays_too_large(text: Seq<char>, digit: char)
    requires
        text.len() > 0,
        forall|i: int| 0 <= i < text.len() ==> '0' <= #[trigger] text[i] <= '9',
        parsed_u64(text) is None,
        '0' <= digit <= '9',
    ensures
        parsed_u64(text.push(digit)) is None,
{
    let more = text.push(digit);
    assert(all_digits(text)) by {
        assert forall|i: int| 0 <= i < text.len() implies is_digit(#[trigger] text[i]) by {}
    }
    assert(is_digit(text[0]));
    assert(more[0] == text[0]);
    assert(more.drop_last() =~= text);
}

/// A plus sign before a number that has none changes nothing.
pub proof fn law_plus_sign_changes_nothing(text: Seq<char>)
    requires
        text.len() == 0 || text[0] != '+',
    ensures
        parsed_u64(seq!['+'] + text) == parsed_u64(text),
{
    assert(without_sign(seq!['+'] + text) =~= text);
}

/// Nothing but digits reads as a number, at least one of them, after a plus sign or none.
pub proof fn law_only_digits_are_read(text: Seq<char>)
    requires
        parsed_u64(text) is Some,
    ensures
        text.len() > 0,
        text[0] == '+' || '0' <= text[0] <= '9',
        text[0] == '+' ==> text.len() > 1,
        forall|i: int| 0 < i < text.len() ==> '0' <= #[trigger] text[i] <= '9',
{
    let digits = without_sign(text);
    if text.len() > 0 && text[0] == '+' {
        assert forall|i: int| 0 < i < text.len() implies '0' <= #[trigger] text[i] <= '9' by {
            assert(digits[i - 1] == text[i]);
            assert(is_digit(digits[i - 1]));
        }
    } else {
        assert forall|i: int| 0 <= i < text.len() implies '0' <= #[trigger] text[i] <= '9' by {
            assert(is_digit(digits[i]));
        }
        assert(is_digit(text[0]));
    }
}

/// Reading a number that was written in decimal notation gives the number back.
pub proof fn law_parse_undoes_format(n: u64)
    ensures
        parsed_u64(decimal(n as nat)) == Some(n),
{
    lemma_decimal_digits(n as nat);
    lemma_decimal_value(n as nat);
    assert(is_digit(decimal(n as nat)[0]));
}

} // verus!
