//! Small helpers on text: the characters of a string as a vector, and
//! comparison of characters with a string.

use vstd::prelude::*;

verus! {

/// Collects the characters of `text` into a vector.
pub fn chars_of(text: &str) -> (chars: Vec<char>)
    ensures
        chars@ == text@,
{
    let mut chars: Vec<char> = Vec::new();
    for c in it: text.chars()
        invariant
            it.seq() == text@,
            chars@ == it.seq().take(it.index()),
    {
        chars.push(c);
    }
    chars
}

/// Tells whether `chars` spells exactly `text`.
pub fn spells(chars: &Vec<char>, text: &str) -> (same: bool)
    ensures
        same == (chars@ == text@),
{
    let mut at: usize = 0;
    for c in it: text.chars()
        invariant
            it.seq() == text@,
            at == it.index(),
            at <= chars.len(),
            chars@.take(at as int) == it.seq().take(at as int),
    {
        if at >= chars.len() || chars[at] != c {
            return false;
        }
        at = at + 1;
    }
    assert(text@.take(at as int) == text@);
    if at == chars.len() {
        assert(chars@.take(at as int) == chars@);
    }
    at == chars.len()
}

} // verus!
