//! Amounts as decimal text.
//!
//! The curve reports the two amounts of a trade as text, and the engine reads
//! them back. Both sides use the form defined here: decimal digits, most
//! significant first. Reading also accepts one leading `+` and leading zeros.

use vstd::prelude::*;
use vstd::string::*;
use vstd::utf8::is_ascii_chars;

verus! {

/// The character of a decimal digit.
pub open spec fn digit_char(digit: nat) -> char {
    (48 + digit) as u8 as char
}

/// Whether `c` is one of `0` to `9`.
pub open spec fn is_digit(c: char) -> bool {
    '0' <= c <= '9'
}

/// The number a digit character stands for.
pub open spec fn digit_value(c: char) -> nat {
    (c as u8 - 48) as nat
}

/// Whether every character of `text` is a decimal digit.
pub open spec fn all_digits(text: Seq<char>) -> bool {
    forall|i: int| 0 <= i < text.len() ==> is_digit(#[trigger] text[i])
}

/// The number that a sequence of decimal digits denotes.
pub open spec fn digits_value(text: Seq<char>) -> nat
    decreases text.len(),
{
    if text.len() == 0 {
        0
    } else {
        digits_value(text.drop_last()) * 10 + digit_value(text.last())
    }
}

/// The decimal form of `n`: no sign, no leading zero, `0` for zero.
pub open spec fn spec_to_string(n: nat) -> Seq<char>
    decreases n,
{
    if n < 10 {
        seq![digit_char(n)]
    } else {
        spec_to_string(n / 10).push(digit_char(n % 10))
    }
}

/// `text` without the one `+` it may begin with.
pub open spec fn unsigned_part(text: Seq<char>) -> Seq<char> {
    if text.len() > 0 && text[0] == '+' {
        text.subrange(1, text.len() as int)
    } else {
        text
    }
}

/// The amount that `text` denotes, if it denotes one: an optional `+`, then at
/// least one digit and nothing else, with a value that fits in an amount.
pub open spec fn spec_from_str(text: Seq<char>) -> Option<u128> {
    let digits = unsigned_part(text);
    if digits.len() > 0 && all_digits(digits) && digits_value(digits) <= u128::MAX {
        Some(digits_value(digits) as u128)
    } else {
        None
    }
}

/// A prefix of a digit sequence denotes no more than the whole.
proof fn lemma_prefix_value_bounded(text: Seq<char>, end: int)
    requires
        0 <= end <= text.len(),
    ensures
        digits_value(text.subrange(0, end)) <= digits_value(text),
    decreases text.len(),
{
    if end == text.len() {
        assert(text.subrange(0, end) =~= text);
    } else {
        lemma_prefix_value_bounded(text.drop_last(), end);
        assert(text.drop_last().subrange(0, end) =~= text.subrange(0, end));
    }
}

/// Reading one more digit multiplies by ten and adds the digit.
proof fn lemma_value_step(text: Seq<char>, end: int)
    requires
        0 <= end < text.len(),
    ensures
        digits_value(text.subrange(0, end + 1)) == digits_value(text.subrange(0, end)) * 10
            + digit_value(text[end]),
{
    let longer = text.subrange(0, end + 1);
    assert(longer.drop_last() =~= text.subrange(0, end));
    assert(longer.last() == text[end]);
}

/// The decimal form of a number is made of digits and denotes that number.
pub proof fn lemma_to_string_denotes(n: nat)
    ensures
        spec_to_string(n).len() > 0,
        all_digits(spec_to_string(n)),
        digits_value(spec_to_string(n)) == n,
    decreases n,
{
    if n < 10 {
        let text = spec_to_string(n);
        assert(text.drop_last() =~= Seq::<char>::empty());
        assert(digits_value(text.drop_last()) == 0);
        assert(is_digit(digit_char(n)));
        assert(digit_value(digit_char(n)) == n);
    } else {
        lemma_to_string_denotes(n / 10);
        let head = spec_to_string(n / 10);
        let text = spec_to_string(n);
        assert(text.drop_last() =~= head);
        assert(is_digit(digit_char(n % 10)));
        assert(digit_value(digit_char(n % 10)) == n % 10);
        assert forall|i: int| 0 <= i < text.len() implies is_digit(#[trigger] text[i]) by {
            if i < head.len() {
                assert(text[i] == head[i]);
            }
        }
    }
}

/// Reading back what was written gives the amount that was written.
pub proof fn lemma_from_str_inverts_to_string(n: u128)
    ensures
        spec_from_str(spec_to_string(n as nat)) == Some(n),
{
    lemma_to_string_denotes(n as nat);
    let text = spec_to_string(n as nat);
    assert(is_digit(text[0]));
    assert(text[0] != '+');
}

/// The text of one decimal digit.
fn digit_str(digit: u8) -> (text: &'static str)
    requires
        digit < 10,
    ensures
        text@ == seq![digit_char(digit as nat)],
{
    proof {
        reveal_strlit("0");
        reveal_strlit("1");
        reveal_strlit("2");
        reveal_strlit("3");
        reveal_strlit("4");
        reveal_strlit("5");
        reveal_strlit("6");
        reveal_strlit("7");
        reveal_strlit("8");
        reveal_strlit("9");
    }
    let text = match digit {
        0 => "0",
        1 => "1",
        2 => "2",
        3 => "3",
        4 => "4",
        5 => "5",
        6 => "6",
        7 => "7",
        8 => "8",
        _ => "9",
    };
    assert(text@ =~= seq![digit_char(digit as nat)]);
    text
}

/// Writes an amount as decimal text.
pub fn to_string(n: u128) -> (text: String)
    ensures
        text@ == spec_to_string(n as nat),
    decreases n,
{
    if n < 10 {
        String::from_str(digit_str(n as u8))
    } else {
        let head = to_string(n / 10);
        let text = head.concat(digit_str((n % 10) as u8));
        assert(text@ =~= spec_to_string(n as nat));
        text
    }
}

/// Reads an amount from decimal text.
pub fn from_str(text: &str) -> (value: Option<u128>)
    ensures
        value == spec_from_str(text@),
{
    if !text.is_ascii() {
        proof {
            let i = choose|i: int|
                0 <= i < text@.len() && !('\0' <= #[trigger] text@[i] <= '\u{7f}');
            let digits = unsigned_part(text@);
            if digits.len() < text@.len() {
                assert(i > 0);
                assert(digits[i - 1] == text@[i]);
                assert(!is_digit(digits[i - 1]));
            } else {
                assert(!is_digit(digits[i]));
            }
        }
        return None;
    }
    let bytes = text.as_bytes();
    proof {
        is_ascii_spec_bytes(text);
    }
    let len = bytes.len();
    let start: usize = if len > 0 && bytes[0] == 43u8 {
        1
    } else {
        0
    };
    let ghost digits = unsigned_part(text@);
    assert(text@.len() == len);
    assert(len > 0 ==> (bytes[0] == 43u8 <==> text@[0] == '+'));
    assert(digits =~= text@.subrange(start as int, len as int));
    if start == len {
        return None;
    }
    let mut value: u128 = 0;
    let mut i: usize = start;
    assert(digits.subrange(0, 0) =~= Seq::<char>::empty());
    while i < len
        invariant
            start <= i <= len,
            len == bytes@.len(),
            len == text@.len(),
            digits == text@.subrange(start as int, len as int),
            digits == unsigned_part(text@),
            is_ascii_chars(text@),
            forall|k: int| 0 <= k < len ==> bytes@[k] == text@[k] as u8,
            all_digits(digits.subrange(0, i - start)),
            value == digits_value(digits.subrange(0, i - start)),
        decreases len - i,
    {
        let byte = bytes[i];
        let ghost c = digits[i - start];
        assert(c == text@[i as int]);
        assert('\0' <= c <= '\u{7f}');
        assert(byte == c as u8);
        if byte < 48 || byte > 57 {
            assert(!is_digit(digits[i - start]));
            return None;
        }
        assert(is_digit(c));
        proof {
            lemma_value_step(digits, i - start);
            lemma_prefix_value_bounded(digits, i - start + 1);
        }
        let shifted = match value.checked_mul(10) {
            Some(shifted) => shifted,
            None => {
                return None;
            },
        };
        value = match shifted.checked_add((byte - 48) as u128) {
            Some(sum) => sum,
            None => {
                return None;
            },
        };
        assert forall|k: int| 0 <= k < i + 1 - start implies is_digit(
            #[trigger] digits.subrange(0, i + 1 - start)[k],
        ) by {
            if k < i - start {
                assert(digits.subrange(0, i - start)[k] == digits[k]);
            }
        }
        i += 1;
    }
    assert(digits.subrange(0, len - start) =~= digits);
    Some(value)
}

} // verus!
