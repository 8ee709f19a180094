//! Functions that may fail, and the errors they fail with.

use vstd::prelude::*;
use vstd::std_specs::iter::IteratorSpec;

verus! {

/// How many characters of `text` stand before its first line feed; all of
/// them where it has none.
pub open spec fn line_len(text: Seq<char>) -> nat
    decreases text.len(),
{
    if text.len() == 0 || text[0] == '\n' {
        0
    } else {
        1 + line_len(text.drop_first())
    }
}

/// The first line of `text`, without what ends it; `None` for the empty
/// text, which has no line.
///
/// A line ends at a line feed or at the end of the text. One carriage return
/// directly before the line feed belongs to the line ending; any other
/// carriage return belongs to the line.
pub open spec fn first_line(text: Seq<char>) -> Option<Seq<char>> {
    let end = line_len(text) as int;
    if text.len() == 0 {
        None
    } else if 0 < end < text.len() && text[end - 1] == '\r' {
        Some(text.take(end - 1))
    } else {
        Some(text.take(end))
    }
}

/// The last character of `line`, if it has any.
pub open spec fn last_char(line: Seq<char>) -> Option<char> {
    if line.len() == 0 {
        None
    } else {
        Some(line.last())
    }
}

/// What `line_len` says: a position within the text, before which no line
/// feed stands, and at which one stands unless the text ends there.
pub proof fn lemma_line_len(text: Seq<char>)
    ensures
        line_len(text) <= text.len(),
        forall|j: int| 0 <= j < line_len(text) ==> text[j] != '\n',
        line_len(text) == text.len() || text[line_len(text) as int] == '\n',
    decreases text.len(),
{
    if text.len() > 0 && text[0] != '\n' {
        let rest = text.drop_first();
        lemma_line_len(rest);
        assert forall|j: int| 0 <= j < line_len(text) implies text[j] != '\n' by {
            if j > 0 {
                assert(rest[j - 1] == text[j]);
            }
        }
        if line_len(text) < text.len() {
            assert(rest[line_len(rest) as int] == text[line_len(text) as int]);
        }
    }
}

/// A position before which no line feed stands, and at which the text ends or
/// a line feed stands, is where the first line ends.
proof fn lemma_line_ends_at(text: Seq<char>, end: int)
    requires
        0 <= end <= text.len(),
        forall|j: int| 0 <= j < end ==> text[j] != '\n',
        end == text.len() || text[end] == '\n',
    ensures
        line_len(text) == end,
{
    lemma_line_len(text);
    let found = line_len(text) as int;
    if found < end {
        assert(text[found] != '\n');
    } else if end < found {
        assert(text[end] != '\n');
    }
}

/// The last character of the first line of `text`; `None` where the text is
/// empty or its first line is.
pub fn last_char_of_first_line(text: &str) -> (last: Option<char>)
    ensures
        last == match first_line(text@) {
            Some(line) => last_char(line),
            None => None,
        },
{
    broadcast use vstd::string::group_string_axioms;

    let mut last: Option<char> = None;
    let mut before_last: Option<char> = None;
    let ghost mut count: int = 0;
    let mut chars = text.chars();
    loop
        invariant_except_break
            chars.remaining() == text@.skip(count),
            last == last_char(text@.take(count)),
            before_last == if count >= 2 {
                Some(text@[count - 2])
            } else {
                None::<char>
            },
        invariant
            0 <= count <= text@.len(),
            forall|j: int| 0 <= j < count ==> text@[j] != '\n',
        ensures
            last == match first_line(text@) {
                Some(line) => last_char(line),
                None => None,
            },
        decreases text@.len() - count,
    {
        let ghost before = chars.remaining();
        match chars.next() {
            None => {
                proof {
                    assert(before.len() == 0);
                    lemma_line_ends_at(text@, count);
                    assert(text@.take(count) == text@);
                }
                break;
            },
            Some(c) => {
                proof {
                    assert(before.len() > 0);
                    assert(c == text@[count]);
                    assert(before.drop_first() == text@.skip(count + 1));
                }
                if c == '\n' {
                    proof {
                        lemma_line_ends_at(text@, count);
                        if count > 0 && text@[count - 1] == '\r' {
                            assert(last == Some('\r'));
                            if count >= 2 {
                                assert(text@.take(count - 1).last() == text@[count - 2]);
                            }
                        }
                    }
                    if last == Some('\r') {
                        last = before_last;
                    }
                    break;
                }
                before_last = last;
                last = Some(c);
                proof {
                    assert(text@.take(count + 1).last() == c);
                    if count >= 1 {
                        assert(text@.take(count).last() == text@[count - 1]);
                    }
                    count = count + 1;
                }
            },
        }
    }
    last
}

/// Why a text is no number that `parse_positive_number` accepts.
#[derive(Clone, Copy, Debug, PartialEq, Eq, Structural)]
pub enum ParseError {
    /// The text is not a whole number that fits into 32 bits with a sign.
    InvalidInput,
    /// The number is above 100.
    TooLarge,
    /// The number is below 0.
    NegativeNumber,
}

impl ParseError {
    /// The error in words.
    pub fn message(&self) -> (words: &'static str)
        ensures
            words@ == match *self {
                ParseError::InvalidInput => "입력이 유효하지 않습니다"@,
                ParseError::TooLarge => "숫자가 너무 큽니다"@,
                ParseError::NegativeNumber => "음수는 허용되지 않습니다"@,
            },
    {
        match self {
            ParseError::InvalidInput => "입력이 유효하지 않습니다",
            ParseError::TooLarge => "숫자가 너무 큽니다",
            ParseError::NegativeNumber => "음수는 허용되지 않습니다",
        }
    }
}

/// `c` is one of the ten digits `0` to `9`.
pub open spec fn is_digit(c: char) -> bool {
    '0' as u32 <= c as u32 <= '9' as u32
}

/// `digits` holds nothing but digits.
pub open spec fn all_digits(digits: Seq<char>) -> bool {
    forall|i: int| 0 <= i < digits.len() ==> is_digit(#[trigger] digits[i])
}

/// The number that the digits of `digits` write in base ten, read as usual
/// with the highest place first. Meant for sequences of digits.
pub open spec fn decimal_value(digits: Seq<char>) -> nat
    decreases digits.len(),
{
    if digits.len() == 0 {
        0
    } else {
        (10 * decimal_value(digits.drop_last()) + (digits.last() as u32 - '0' as u32)) as nat
    }
}

/// The whole number that `text` writes: one sign `+` or `-` at most, then
/// one digit at least and nothing but digits. `None` for any other text.
pub open spec fn signed_decimal(text: Seq<char>) -> Option<int> {
    let signed = text.len() > 0 && (text[0] == '-' || text[0] == '+');
    let digits = if signed {
        text.drop_first()
    } else {
        text
    };
    if digits.len() == 0 || !all_digits(digits) {
        None
    } else if text[0] == '-' {
        Some(-(decimal_value(digits) as int))
    } else {
        Some(decimal_value(digits) as int)
    }
}

/// The number that `text` writes, where it writes one that fits into 32 bits
/// with a sign.
pub open spec fn decimal_i32(text: Seq<char>) -> Option<i32> {
    match signed_decimal(text) {
        Some(value) => if i32::MIN <= value <= i32::MAX {
            Some(value as i32)
        } else {
            None
        },
        None => None,
    }
}

/// What `parse_positive_number` makes of `text`.
pub open spec fn positive_number(text: Seq<char>) -> Result<u32, ParseError> {
    match decimal_i32(text) {
        None => Err(ParseError::InvalidInput),
        Some(number) => if number < 0 {
            Err(ParseError::NegativeNumber)
        } else if number > 100 {
            Err(ParseError::TooLarge)
        } else {
            Ok(number as u32)
        },
    }
}

/// `str::parse` for `i32`, with its error dropped.
///
/// The standard library takes an optional sign `+` or `-` followed by decimal
/// digits and nothing else, and refuses the empty text, a sign alone, any
/// other character (blanks and underscores too) and a number that does not
/// fit into an `i32`. The contract says this with `decimal_i32`.
#[verifier::external_body]
fn parse_i32(s: &str) -> (parsed: Option<i32>)
    ensures
        parsed == decimal_i32(s@),
{
    s.parse::<i32>().ok()
}

/// The number from 0 to 100 that `s` writes.
///
/// A text that is no number, or a number beyond 32 bits, is invalid input; a
/// number below 0 is negative; a number above 100 is too large.
pub fn parse_positive_number(s: &str) -> (parsed: Result<u32, ParseError>)
    ensures
        parsed == positive_number(s@),
{
    match parse_i32(s) {
        None => Err(ParseError::InvalidInput),
        Some(num) => {
            if num < 0 {
                Err(ParseError::NegativeNumber)
            } else if num > 100 {
                Err(ParseError::TooLarge)
            } else {
                Ok(num as u32)
            }
        },
    }
}

} // verus!
