//! Conversions between strings and sequences of characters.

use vstd::prelude::*;

verus! {

/// `String::push` of the standard library: the character is put behind
/// those that the string holds.
pub assume_specification[ String::push ](s: &mut String, c: char)
    ensures
        final(s)@ == old(s)@.push(c),
;

/// The characters of `s`, in order.
pub fn chars_of(s: &str) -> (out: Vec<char>)
    ensures
        out@ == s@,
{
    let mut out: Vec<char> = Vec::new();
    for c in it: s.chars()
        invariant
            it.seq() == s@,
            out@ == it.seq().take(it.index()),
    {
        out.push(c);
    }
    out
}

/// The string that holds exactly the characters of `chars`.
pub fn string_of(chars: &Vec<char>) -> (out: String)
    ensures
        out@ == chars@,
{
    let mut out = String::new();
    let mut i: usize = 0;
    while i < chars.len()
        invariant
            i <= chars.len(),
            out@ == chars@.take(i as int),
        decreases chars.len() - i,
    {
        out.push(chars[i]);
        i += 1;
    }
    out
}

/// Puts the characters of `tail` behind those of `text`.
pub fn push_str(text: &mut Vec<char>, tail: &str)
    ensures
        final(text)@ == old(text)@ + tail@,
{
    for c in it: tail.chars()
        invariant
            it.seq() == tail@,
            text@ == old(text)@ + it.seq().take(it.index()),
    {
        text.push(c);
        assert(text@ =~= old(text)@ + it.seq().take(it.index() + 1));
    }
    assert(tail@.take(tail@.len() as int) =~= tail@);
}

/// The texts held by a list of strings.
pub open spec fn texts_of(items: Seq<String>) -> Seq<Seq<char>> {
    Seq::new(items.len(), |i: int| items[i]@)
}

} // verus!
