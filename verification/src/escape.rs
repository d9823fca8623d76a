//! Escaping of text for the renderer's filter expressions.

use vstd::prelude::*;
use crate::chars::{chars_of, string_of};

verus! {

/// The characters that carry meaning inside a quoted filter argument.
pub open spec fn is_reserved(c: char) -> bool {
    c == '\\' || c == '"' || c == '\'' || c == '%' || c == ':' || c == '&'
}

/// What one character of the source text becomes: a backslash is doubled,
/// both kinds of quote are doubled, and `%`, `:` and `&` get a backslash in
/// front; any other character stands for itself.
pub open spec fn escape_char(c: char) -> Seq<char> {
    if c == '\\' {
        seq!['\\', '\\']
    } else if c == '"' {
        seq!['"', '"']
    } else if c == '\'' {
        seq!['\'', '\'']
    } else if c == '%' {
        seq!['\\', '%']
    } else if c == ':' {
        seq!['\\', ':']
    } else if c == '&' {
        seq!['\\', '&']
    } else {
        seq![c]
    }
}

/// The escaped form of a text: the escaped forms of its characters, in order.
pub open spec fn escaped(text: Seq<char>) -> Seq<char>
    decreases text.len(),
{
    if text.len() == 0 {
        Seq::empty()
    } else {
        escaped(text.drop_last()) + escape_char(text.last())
    }
}

/// A text reads as a run of escaped units from its start to its end: a
/// character that is not reserved, a backslash followed by one of `\`, `%`,
/// `:`, `&`, or a doubled quote. In such a text no reserved character stands
/// on its own.
pub open spec fn fully_escaped(text: Seq<char>) -> bool
    decreases text.len(),
{
    if text.len() == 0 {
        true
    } else if text[0] == '\\' {
        text.len() >= 2 && (text[1] == '\\' || text[1] == '%' || text[1] == ':' || text[1] == '&')
            && fully_escaped(text.skip(2))
    } else if text[0] == '"' || text[0] == '\'' {
        text.len() >= 2 && text[1] == text[0] && fully_escaped(text.skip(2))
    } else if is_reserved(text[0]) {
        false
    } else {
        fully_escaped(text.skip(1))
    }
}

/// A text without the characters equal to `c`.
pub open spec fn without_char(text: Seq<char>, c: char) -> Seq<char> {
    text.filter(|x: char| x != c)
}

/// Two fully escaped texts, one after the other, are a fully escaped text.
pub proof fn lemma_fully_escaped_concat(a: Seq<char>, b: Seq<char>)
    requires
        fully_escaped(a),
        fully_escaped(b),
    ensures
        fully_escaped(a + b),
    decreases a.len(),
{
    if a.len() == 0 {
        assert(a + b =~= b);
    } else if a[0] == '\\' || a[0] == '"' || a[0] == '\'' {
        lemma_fully_escaped_concat(a.skip(2), b);
        assert((a + b).skip(2) =~= a.skip(2) + b);
    } else {
        lemma_fully_escaped_concat(a.skip(1), b);
        assert((a + b).skip(1) =~= a.skip(1) + b);
    }
}

/// Escaping never leaves a reserved character on its own: whatever the text,
/// its escaped form is fully escaped.
pub proof fn lemma_escaped_is_fully_escaped(text: Seq<char>)
    ensures
        fully_escaped(escaped(text)),
    decreases text.len(),
{
    if text.len() > 0 {
        lemma_escaped_is_fully_escaped(text.drop_last());
        let unit = escape_char(text.last());
        assert(fully_escaped(unit)) by {
            if unit.len() == 2 {
                assert(unit.skip(2) =~= Seq::<char>::empty());
            } else {
                assert(unit.skip(1) =~= Seq::<char>::empty());
            }
            assert(fully_escaped(Seq::<char>::empty()));
        }
        lemma_fully_escaped_concat(escaped(text.drop_last()), unit);
    }
}

/// Escaping leaves a text without reserved characters as it is.
pub proof fn lemma_escaped_keeps_plain_text(text: Seq<char>)
    requires
        forall|i: int| 0 <= i < text.len() ==> !is_reserved(#[trigger] text[i]),
    ensures
        escaped(text) == text,
    decreases text.len(),
{
    if text.len() > 0 {
        lemma_escaped_keeps_plain_text(text.drop_last());
        assert(escaped(text) =~= text);
    }
}

/// Escapes the characters that carry meaning in a filter expression.
pub fn sanitize_shell_characters(text: &str) -> (out: String)
    ensures
        out@ == escaped(text@),
        fully_escaped(out@),
{
    proof {
        lemma_escaped_is_fully_escaped(text@);
    }
    let source = chars_of(text);
    let escaped_chars = escape_chars(&source);
    string_of(&escaped_chars)
}

/// Escapes a text given as characters.
pub fn escape_chars(text: &Vec<char>) -> (out: Vec<char>)
    ensures
        out@ == escaped(text@),
{
    let mut out: Vec<char> = Vec::new();
    let mut i: usize = 0;
    while i < text.len()
        invariant
            i <= text.len(),
            out@ == escaped(text@.take(i as int)),
        decreases text.len() - i,
    {
        let c = text[i];
        proof {
            assert(text@.take(i + 1).drop_last() =~= text@.take(i as int));
            assert(text@.take(i + 1).last() == c);
        }
        if c == '\\' || c == '"' || c == '\'' {
            if c == '\\' {
                out.push('\\');
            } else {
                out.push(c);
            }
            out.push(c);
        } else if c == '%' || c == ':' || c == '&' {
            out.push('\\');
            out.push(c);
        } else {
            out.push(c);
        }
        i += 1;
        assert(out@ =~= escaped(text@.take(i as int)));
    }
    assert(text@.take(i as int) =~= text@);
    out
}

/// Drops every character equal to `c` from a text.
pub fn remove_char(text: &Vec<char>, c: char) -> (out: Vec<char>)
    ensures
        out@ == without_char(text@, c),
{
    let mut out: Vec<char> = Vec::new();
    let mut i: usize = 0;
    while i < text.len()
        invariant
            i <= text.len(),
            out@ == without_char(text@.take(i as int), c),
        decreases text.len() - i,
    {
        proof {
            assert(text@.take(i + 1).drop_last() =~= text@.take(i as int));
            reveal(Seq::filter);
        }
        if text[i] != c {
            out.push(text[i]);
        }
        i += 1;
    }
    assert(text@.take(i as int) =~= text@);
    out
}

} // verus!
