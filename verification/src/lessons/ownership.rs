//! Functions that take, lend and give back text.

use vstd::prelude::*;
use vstd::std_specs::iter::IteratorSpec;
use vstd::string::StrSliceExecFns;
use vstd::string::StringExecFns;
use vstd::utf8::encode_utf8;

verus! {

/// The text that `change` puts behind what it is given.
pub const SUFFIX: &'static str = ", Rust!";

/// A freshly made text, owned by the caller from now on.
pub fn gives_ownership() -> (made: String)
    ensures
        made@ == "함수가 생성한 문자열"@,
{
    "함수가 생성한 문자열".to_owned()
}

/// The text it was given, handed back untouched.
pub fn takes_and_gives_back(a_string: String) -> (same: String)
    ensures
        same == a_string,
{
    a_string
}

/// The length of `s` in bytes, as UTF-8 lays it out.
pub fn calculate_length(s: &String) -> (length: usize)
    ensures
        length == encode_utf8(s@).len(),
{
    s.as_str().as_bytes().len()
}

/// Puts `SUFFIX` behind the text.
pub fn change(some_string: &mut String)
    ensures
        final(some_string)@ == old(some_string)@ + SUFFIX@,
{
    some_string.append(SUFFIX);
}

/// The first word of `s`: what stands before its first space, and all of it
/// where it has no space.
pub fn first_word(s: &str) -> (word: &str)
    ensures
        word@ == s@.take(word@.len() as int),
        word@.len() <= s@.len(),
        !word@.contains(' '),
        word@.len() == s@.len() || s@[word@.len() as int] == ' ',
{
    broadcast use vstd::string::group_string_axioms;

    let len: usize = s.unicode_len();
    let mut count: usize = 0;
    let mut chars = s.chars();
    while count < len
        invariant_except_break
            chars.remaining() == s@.skip(count as int),
        invariant
            count <= len,
            len == s@.len(),
            forall|j: int| 0 <= j < count ==> s@[j] != ' ',
        ensures
            count <= len,
            forall|j: int| 0 <= j < count ==> s@[j] != ' ',
            count == len || s@[count as int] == ' ',
        decreases len - count,
    {
        let ghost before = chars.remaining();
        let next = chars.next();
        assert(before.len() > 0);
        assert(next == Some(s@[count as int]));
        assert(chars.remaining() == s@.skip(count + 1)) by {
            assert(before.drop_first() == s@.skip(count + 1));
        }
        match next {
            Some(c) => {
                if c == ' ' {
                    break;
                }
            },
            None => {},
        }
        count += 1;
    }
    let word = s.substring_char(0, count);
    proof {
        assert(word@ == s@.take(count as int));
        assert forall|j: int| 0 <= j < word@.len() implies word@[j] != ' ' by {
            assert(word@[j] == s@[j]);
        }
    }
    word
}

} // verus!
