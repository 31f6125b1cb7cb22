//! Reading and writing the short texts that the kernel and command line tools
//! exchange with the controller.

use std::num::ParseIntError;
use std::string::FromUtf8Error;
use vstd::prelude::*;
use vstd::string::*;
use vstd::utf8::{decode_utf8, valid_utf8};

verus! {

/// Why a text is not a number in the expected range.
#[verifier::external_type_specification]
#[verifier::external_body]
pub struct ExParseIntError(ParseIntError);

/// Why a sequence of bytes is not a text.
#[verifier::external_type_specification]
#[verifier::external_body]
pub struct ExFromUtf8Error(FromUtf8Error);

/// The characters with the Unicode property `White_Space`.
pub open spec fn is_white_space(c: char) -> bool {
    ||| 0x9 <= c as u32 <= 0xd
    ||| c as u32 == 0x20
    ||| c as u32 == 0x85
    ||| c as u32 == 0xa0
    ||| c as u32 == 0x1680
    ||| 0x2000 <= c as u32 <= 0x200a
    ||| c as u32 == 0x2028
    ||| c as u32 == 0x2029
    ||| c as u32 == 0x202f
    ||| c as u32 == 0x205f
    ||| c as u32 == 0x3000
}

/// A text without the white space at its end.
pub open spec fn trimmed_end(s: Seq<char>) -> Seq<char>
    decreases s.len(),
{
    if s.len() > 0 && is_white_space(s.last()) {
        trimmed_end(s.drop_last())
    } else {
        s
    }
}

/// What a character counts for as a digit: `0` to `9`, then the letters in
/// either case, as far as the radix goes.
pub open spec fn digit_value(c: char, radix: nat) -> Option<nat> {
    let v = if '0' <= c <= '9' {
        (c as nat - '0' as nat) as nat
    } else if 'a' <= c <= 'z' {
        (c as nat - 'a' as nat + 10) as nat
    } else if 'A' <= c <= 'Z' {
        (c as nat - 'A' as nat + 10) as nat
    } else {
        radix
    };
    if v < radix {
        Some(v)
    } else {
        None
    }
}

/// Every character is a digit in the given radix.
pub open spec fn all_digits(s: Seq<char>, radix: nat) -> bool {
    forall|i: int| 0 <= i < s.len() ==> digit_value(#[trigger] s[i], radix) is Some
}

/// The number that a sequence of digits stands for.
pub open spec fn digits_value(s: Seq<char>, radix: nat) -> nat
    decreases s.len(),
{
    if s.len() == 0 {
        0
    } else {
        digits_value(s.drop_last(), radix) * radix + digit_value(s.last(), radix)->0
    }
}

/// What follows an optional leading plus sign.
pub open spec fn without_plus(s: Seq<char>) -> Seq<char> {
    if s.len() > 0 && s[0] == '+' {
        s.drop_first()
    } else {
        s
    }
}

/// The `u8` that a text stands for: an optional plus sign, then one or more
/// digits whose value is in range.
pub open spec fn parsed_u8(s: Seq<char>, radix: nat) -> Option<u8> {
    let digits = without_plus(s);
    if digits.len() > 0 && all_digits(digits, radix) && digits_value(digits, radix) <= u8::MAX {
        Some(digits_value(digits, radix) as u8)
    } else {
        None
    }
}

/// `needle` stands somewhere in `text`.
pub open spec fn contains_text(text: Seq<char>, needle: Seq<char>) -> bool {
    exists|i: int|
        0 <= i <= text.len() - needle.len() && #[trigger] text.subrange(i, i + needle.len())
            == needle
}

/// `str::trim_end` drops the trailing characters that have the Unicode
/// property `White_Space`, and nothing else.
pub assume_specification[ str::trim_end ](s: &str) -> (trimmed: &str)
    ensures
        trimmed@ == trimmed_end(s@),
;

/// Why `u8::from_str_radix` refuses a text in a radix.
pub uninterp spec fn parse_error(s: Seq<char>, radix: nat) -> ParseIntError;

/// `u8::from_str_radix` takes an optional `+` followed by digits of the radix,
/// and nothing else around them; a number over 255 is an error. Which error a
/// refused text gets depends on the text and the radix alone. It panics for a
/// radix outside 2 to 36.
pub assume_specification[ u8::from_str_radix ](src: &str, radix: u32) -> (parsed: Result<
    u8,
    ParseIntError,
>)
    requires
        2 <= radix <= 36,
    ensures
        parsed is Ok <==> parsed_u8(src@, radix as nat) is Some,
        parsed matches Ok(n) ==> parsed_u8(src@, radix as nat) == Some(n),
        parsed matches Err(e) ==> e == parse_error(src@, radix as nat),
;

/// `String::from_utf8` accepts exactly the valid UTF-8 sequences and keeps
/// their characters.
pub assume_specification[ String::from_utf8 ](vec: Vec<u8>) -> (text: Result<
    String,
    FromUtf8Error,
>)
    ensures
        text is Ok <==> valid_utf8(vec@),
        text matches Ok(s) ==> s@ == decode_utf8(vec@),
;

/// `str::contains` with a string pattern tells whether the pattern is a
/// substring.
#[verifier::external_body]
pub(crate) fn str_contains(text: &str, needle: &str) -> (found: bool)
    ensures
        found == contains_text(text@, needle@),
{
    text.contains(needle)
}

/// The decimal digit for a value below ten.
pub open spec fn digit_char(d: nat) -> char
    recommends
        d < 10,
{
    ('0' as nat + d) as char
}

/// A number in decimal, without leading zeros.
pub open spec fn decimal(n: nat) -> Seq<char>
    decreases n,
{
    if n < 10 {
        seq![digit_char(n)]
    } else {
        decimal(n / 10).push(digit_char(n % 10))
    }
}

fn digit_str(d: u8) -> (s: &'static str)
    requires
        d < 10,
    ensures
        s@ == seq![digit_char(d as nat)],
{
    proof {
        reveal_strlit("0");
        reveal_strlit("1");
        reveal_strlit("2");
        reveal_strlit("3");
        reveal_strlit("4");
        reveal_strlit("5");
        reveal_strlit("6");
        reveal_strlit("7");
        reveal_strlit("8");
        reveal_strlit("9");
    }
    match d {
        0 => "0",
        1 => "1",
        2 => "2",
        3 => "3",
        4 => "4",
        5 => "5",
        6 => "6",
        7 => "7",
        8 => "8",
        _ => "9",
    }
}

/// A line that holds a number in decimal.
pub fn decimal_line(n: u8) -> (line: String)
    ensures
        line@ == decimal(n as nat).push('\n'),
{
    proof {
        reveal_with_fuel(decimal, 3);
        reveal_strlit("\n");
    }
    let mut line = String::new();
    if n >= 100 {
        line.append(digit_str(n / 100));
    }
    if n >= 10 {
        line.append(digit_str(n / 10 % 10));
    }
    line.append(digit_str(n % 10));
    line.append("\n");
    assert(line@ =~= decimal(n as nat).push('\n'));
    line
}

proof fn lemma_decimal(n: nat)
    ensures
        decimal(n).len() > 0,
        all_digits(decimal(n), 10),
        digits_value(decimal(n), 10) == n,
    decreases n,
{
    if n < 10 {
        assert(decimal(n).drop_last() =~= seq![]);
        assert(digits_value(decimal(n).drop_last(), 10) == 0);
    } else {
        lemma_decimal(n / 10);
        assert(decimal(n).drop_last() =~= decimal(n / 10));
    }
}

/// A number written as a line reads back as the same number, once the end of
/// the line is trimmed off.
pub proof fn law_decimal_line_reads_back(n: u8)
    ensures
        parsed_u8(trimmed_end(decimal(n as nat).push('\n')), 10) == Some(n),
{
    let digits = decimal(n as nat);
    lemma_decimal(n as nat);
    assert(digit_value(digits.last(), 10) is Some);
    assert(digit_value(digits[0], 10) is Some);
    assert(digits.push('\n').drop_last() =~= digits);
    reveal_with_fuel(trimmed_end, 2);
    assert(trimmed_end(digits.push('\n')) == digits);
}

/// Trimming drops all the white space at the end of a text and nothing before it.
pub proof fn law_trimmed_end(number: Seq<char>, space: Seq<char>)
    requires
        number.len() == 0 || !is_white_space(number.last()),
        forall|i: int| 0 <= i < space.len() ==> is_white_space(#[trigger] space[i]),
    ensures
        trimmed_end(number + space) == number,
    decreases space.len(),
{
    if space.len() == 0 {
        assert(number + space =~= number);
    } else {
        assert((number + space).last() == space[space.len() - 1]);
        assert((number + space).drop_last() =~= number + space.drop_last());
        law_trimmed_end(number, space.drop_last());
    }
}

/// A text contains what stands in it between a beginning and an end, and nothing
/// else.
pub proof fn law_contains_text(text: Seq<char>, needle: Seq<char>, before: Seq<char>, after: Seq<
    char,
>)
    ensures
        contains_text(before + needle + after, needle),
        contains_text(text, needle) ==> exists|a: Seq<char>, b: Seq<char>|
            text == #[trigger] (a + needle + b),
{
    let whole = before + needle + after;
    let i = before.len() as int;
    assert(whole.subrange(i, i + needle.len()) =~= needle);
    if contains_text(text, needle) {
        let i = choose|i: int|
            0 <= i <= text.len() - needle.len() && #[trigger] text.subrange(i, i + needle.len())
                == needle;
        let (a, b) = (text.take(i), text.skip(i + needle.len()));
        assert forall|k: int| 0 <= k < needle.len() implies #[trigger] text[i + k] == needle[k] by {
            assert(text.subrange(i, i + needle.len())[k] == needle[k]);
        }
        assert forall|k: int| 0 <= k < text.len() implies #[trigger] text[k] == (a + needle + b)[k] by {
            if i <= k < i + needle.len() {
                assert(text[i + (k - i)] == needle[k - i]);
            }
        }
        assert(text =~= a + needle + b);
    }
}

} // verus!
