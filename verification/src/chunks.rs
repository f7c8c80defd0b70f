//! Where a long reply can be cut: at the last whitespace before a limit.

use vstd::prelude::*;

verus! {

/// Whether a character is Unicode whitespace, as `char::is_whitespace`
/// tells it.
pub uninterp spec fn is_whitespace(c: char) -> bool;

/// The byte offset at which the `k`-th character of a text starts.
pub open spec fn offset_of(text: Seq<char>, k: int) -> nat {
    vstd::utf8::encode_utf8(text.take(k)).len()
}

/// The `k`-th character is whitespace and starts before the byte `index`.
pub open spec fn is_cut(text: Seq<char>, index: usize, k: int) -> bool {
    0 <= k < text.len() && offset_of(text, k) < index && is_whitespace(text[k])
}

/// `found` is the byte offset of the last whitespace character that
/// starts before the byte `index`, or nothing where there is none.
pub open spec fn is_last_cut(text: Seq<char>, index: usize, found: Option<usize>) -> bool {
    match found {
        Some(at) => exists|k: int|
            #![trigger is_cut(text, index, k)]
            is_cut(text, index, k) && offset_of(text, k) == at && forall|j: int|
                k < j ==> !is_cut(text, index, j),
        None => forall|k: int| !is_cut(text, index, k),
    }
}

/// Calls `char::is_whitespace`, whose result is the named property of
/// the character.
#[verifier::external_body]
fn char_is_whitespace(c: char) -> (r: bool)
    ensures
        r == is_whitespace(c),
{
    c.is_whitespace()
}

/// Calls `str::char_indices` and collects what it yields: each character
/// of the text in order, with the byte offset at which it starts.
#[verifier::external_body]
fn char_offsets(text: &str) -> (r: Vec<(usize, char)>)
    ensures
        r@.len() == text@.len(),
        forall|k: int|
            0 <= k < r@.len() ==> (#[trigger] r@[k]).1 == text@[k] && r@[k].0 == offset_of(text@, k),
{
    text.char_indices().collect()
}

/// The byte offset of the last whitespace character that starts before
/// the byte `index`, if there is one.
pub fn find_last_whitespace_before_index(input_str: &str, index: usize) -> (r: Option<usize>)
    ensures
        is_last_cut(input_str@, index, r),
{
    let chars = char_offsets(input_str);
    let mut i: usize = chars.len();
    while i > 0
        invariant
            i <= chars@.len() == input_str@.len(),
            forall|k: int|
                0 <= k < chars@.len() ==> (#[trigger] chars@[k]).1 == input_str@[k] && chars@[k].0
                    == offset_of(input_str@, k),
            forall|j: int| i <= j ==> !is_cut(input_str@, index, j),
        decreases i,
    {
        i -= 1;
        let entry = chars[i];
        if entry.0 < index && char_is_whitespace(entry.1) {
            assert(is_cut(input_str@, index, i as int));
            return Some(entry.0);
        }
    }
    None
}

/// The most bytes one message may hold.
pub const MAX_MESSAGE_SIZE: usize = 1950;

/// How many bytes to cut off the front of a reply that is too long: up to
/// and with the whitespace found, or one byte short of the limit where
/// there is none.
pub open spec fn cut_length(found: Option<usize>) -> int {
    match found {
        Some(at) => at + 1,
        None => MAX_MESSAGE_SIZE - 1,
    }
}

/// The number of bytes to send next from a buffer that has outgrown one
/// message.
pub fn chars_to_take(buffer: &str) -> (n: usize)
    ensures
        1 <= n <= MAX_MESSAGE_SIZE,
        exists|found: Option<usize>| #[trigger]
            is_last_cut(buffer@, MAX_MESSAGE_SIZE, found) && n == cut_length(found),
{
    let found = find_last_whitespace_before_index(buffer, MAX_MESSAGE_SIZE);
    match found {
        Some(at) => at + 1,
        None => MAX_MESSAGE_SIZE - 1,
    }
}

} // verus!
