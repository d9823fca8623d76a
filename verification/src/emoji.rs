//! Emoji, which the speech service is spared.

use vstd::prelude::*;

verus! {

/// Whether the speech service is spared the character: emoticons, symbols
/// and pictographs, transport and map symbols, flags, dingbats, and the
/// enclosed characters up to U+1F251.
pub open spec fn is_emoji(c: char) -> bool {
    ||| '\u{1F600}' <= c <= '\u{1F64F}'
    ||| '\u{1F300}' <= c <= '\u{1F5FF}'
    ||| '\u{1F680}' <= c <= '\u{1F6FF}'
    ||| '\u{1F1E0}' <= c <= '\u{1F1FF}'
    ||| '\u{2702}' <= c <= '\u{27B0}'
    ||| '\u{24C2}' <= c <= '\u{1F251}'
}

/// A text without its emoji.
pub open spec fn without_emojis(text: Seq<char>) -> Seq<char> {
    text.filter(|c: char| !is_emoji(c))
}

/// The pattern that matches a run of emoji.
pub open spec fn emoji_pattern() -> Seq<char> {
    "[\u{1F600}-\u{1F64F}\u{1F300}-\u{1F5FF}\u{1F680}-\u{1F6FF}\u{1F1E0}-\u{1F1FF}\u{2702}-\u{27B0}\u{24C2}-\u{1F251}]+"@
}

/// `regex::Regex::new` on the pattern for runs of emoji, then
/// `Regex::replace_all` with the empty replacement. The pattern is one
/// character class, repeated, so each match is a longest run of characters
/// of the class; with every run replaced by nothing, what is left are the
/// characters outside the class, in their order.
#[verifier::external_body]
fn replace_matches(pattern: &str, text: &str, replacement: &str) -> (out: String)
    requires
        pattern@ == emoji_pattern(),
        replacement@.len() == 0,
    ensures
        out@ == without_emojis(text@),
{
    regex::Regex::new(pattern).unwrap().replace_all(text, replacement).to_string()
}

/// Takes the emoji out of a text.
pub fn remove_emojis(text: &str) -> (out: String)
    ensures
        out@ == without_emojis(text@),
{
    proof {
        reveal_strlit("");
    }
    replace_matches(
        "[\u{1F600}-\u{1F64F}\u{1F300}-\u{1F5FF}\u{1F680}-\u{1F6FF}\u{1F1E0}-\u{1F1FF}\u{2702}-\u{27B0}\u{24C2}-\u{1F251}]+",
        text,
        "",
    )
}

} // verus!
