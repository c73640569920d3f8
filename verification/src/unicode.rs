//! Character classification: emoji by code point range, whitespace and
//! control characters by their Unicode properties.
use vstd::prelude::*;

verus! {

/// Membership of a code point in the blocks that this crate treats as emoji.
///
/// This is a coarse, per-code-point classification: sequences made of several
/// code points (flags, skin-tone modifiers) are judged one code point at a time.
pub open spec fn is_emoji_code_point(cp: u32) -> bool {
    // Emoticons
    ||| 0x1F600 <= cp <= 0x1F64F
    // Miscellaneous Symbols and Pictographs
    ||| 0x1F300 <= cp <= 0x1F5FF
    // Transport and Map Symbols
    ||| 0x1F680 <= cp <= 0x1F6FF
    // Alchemical Symbols
    ||| 0x1F700 <= cp <= 0x1F77F
    // Geometric Shapes Extended
    ||| 0x1F780 <= cp <= 0x1F7FF
    // Supplemental Arrows-C
    ||| 0x1F800 <= cp <= 0x1F8FF
    // Supplemental Symbols and Pictographs
    ||| 0x1F900 <= cp <= 0x1F9FF
    // Chess Symbols
    ||| 0x1FA00 <= cp <= 0x1FA6F
    // Symbols and Pictographs Extended-A
    ||| 0x1FA70 <= cp <= 0x1FAFF
    // Miscellaneous Symbols
    ||| 0x2600 <= cp <= 0x26FF
    // Dingbats
    ||| 0x2700 <= cp <= 0x27BF
    // White medium star
    ||| cp == 0x2B50
    // Heavy large circle
    ||| cp == 0x2B55
}

/// Whether a character is an emoji.
pub open spec fn spec_is_emoji(c: char) -> bool {
    is_emoji_code_point(c as u32)
}

/// The `White_Space` property of a character, as `char::is_whitespace` reports it.
pub uninterp spec fn char_is_whitespace(c: char) -> bool;

/// The general category `Cc` of a character, as `char::is_control` reports it.
pub uninterp spec fn char_is_control(c: char) -> bool;

/// Decides whether `c` is an emoji. Total over all characters.
pub fn is_emoji(c: char) -> (b: bool)
    ensures
        b == spec_is_emoji(c),
{
    let cp: u32 = c as u32;
    (0x1F300 <= cp && cp <= 0x1F64F) || (0x1F680 <= cp && cp <= 0x1FAFF) || (0x2600 <= cp && cp
        <= 0x27BF) || cp == 0x2B50 || cp == 0x2B55
}

/// Calls `char::is_whitespace`. The contract only gives the answer a name: it
/// is the character's `White_Space` property, a function of the character alone.
#[verifier::external_body]
pub(crate) fn is_whitespace(c: char) -> (b: bool)
    ensures
        b == char_is_whitespace(c),
{
    c.is_whitespace()
}

/// Calls `char::is_control`. The contract only gives the answer a name: it is
/// whether the character has general category `Cc`, a function of the
/// character alone.
#[verifier::external_body]
pub(crate) fn is_control(c: char) -> (b: bool)
    ensures
        b == char_is_control(c),
{
    c.is_control()
}

} // verus!
