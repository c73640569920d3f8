//! Counting the readable units of a text span.
//!
//! Two strategies exist. Character mode suits languages written without
//! spaces between words: every visible character is one unit. Word mode suits
//! space-delimited languages: every whitespace-separated token is one unit,
//! unless emoji counting breaks a token that holds an emoji into its characters.
use vstd::prelude::*;
use vstd::string::StringSliceAdditionalSpecFns;
use vstd::utf8::encode_utf8;
use crate::unicode::{
    char_is_control,
    char_is_whitespace,
    is_control,
    is_emoji,
    is_whitespace,
    spec_is_emoji,
};

verus! {

/// Whether a character is one unit in character mode.
///
/// Whitespace never counts. With emoji counting on, a control character counts
/// only if it is an emoji; with emoji counting off, every character that is not
/// whitespace counts.
pub open spec fn is_unit_char(c: char, count_emoji: bool) -> bool {
    if count_emoji {
        !char_is_whitespace(c) && (!char_is_control(c) || spec_is_emoji(c))
    } else {
        !char_is_whitespace(c)
    }
}

/// The characters that are units in character mode, as a predicate.
pub open spec fn unit_chars(count_emoji: bool) -> spec_fn(char) -> bool {
    |c: char| is_unit_char(c, count_emoji)
}

/// The emoji, as a predicate.
pub open spec fn emoji_chars() -> spec_fn(char) -> bool {
    |c: char| spec_is_emoji(c)
}

/// The characters that are neither emoji nor whitespace, as a predicate.
pub open spec fn plain_chars() -> spec_fn(char) -> bool {
    |c: char| !spec_is_emoji(c) && !char_is_whitespace(c)
}

/// The number of units of a span in character mode: how many of its characters
/// are units.
pub open spec fn char_units(text: Seq<char>, count_emoji: bool) -> nat {
    text.filter(unit_chars(count_emoji)).len()
}

/// The tokens of a span: its maximal runs of characters that are not
/// whitespace, from left to right.
///
/// The definition follows the span from its end: a trailing whitespace
/// character changes nothing, a character after a non-whitespace character
/// extends the last token, and any other character opens a new token.
pub open spec fn split_whitespace(text: Seq<char>) -> Seq<Seq<char>>
    decreases text.len(),
{
    if text.len() == 0 {
        Seq::empty()
    } else {
        let tokens = split_whitespace(text.drop_last());
        if char_is_whitespace(text.last()) {
            tokens
        } else if ends_in_token(text.drop_last()) {
            tokens.drop_last().push(tokens.last().push(text.last()))
        } else {
            tokens.push(seq![text.last()])
        }
    }
}

/// Whether a span ends inside a token, that is with a character that is not
/// whitespace.
pub open spec fn ends_in_token(text: Seq<char>) -> bool {
    text.len() > 0 && !char_is_whitespace(text.last())
}

/// The units of one token in word mode with emoji counting on.
///
/// A token without emoji is one unit, whatever its length. A token with at
/// least one emoji is taken apart: one unit for each emoji and one for each
/// other character that is not whitespace.
pub open spec fn token_units(token: Seq<char>) -> nat {
    let emoji = token.filter(emoji_chars()).len();
    if emoji > 0 {
        token.filter(plain_chars()).len() + emoji
    } else {
        1
    }
}

/// The sum of `token_units` over a sequence of tokens.
pub open spec fn total_token_units(tokens: Seq<Seq<char>>) -> nat
    decreases tokens.len(),
{
    if tokens.len() == 0 {
        0
    } else {
        total_token_units(tokens.drop_last()) + token_units(tokens.last())
    }
}

/// What a sequence of tokens contributes in word mode: with emoji counting on
/// the sum of their units, with emoji counting off their number.
pub open spec fn tokens_measure(tokens: Seq<Seq<char>>, count_emoji: bool) -> nat {
    if count_emoji {
        total_token_units(tokens)
    } else {
        tokens.len()
    }
}

/// The number of units of a span in word mode.
pub open spec fn word_units(text: Seq<char>, count_emoji: bool) -> nat {
    tokens_measure(split_whitespace(text), count_emoji)
}

/// The number of units of a span in the given language mode.
pub open spec fn span_units(text: Seq<char>, count_emoji: bool, chinese: bool) -> nat {
    if chinese {
        char_units(text, count_emoji)
    } else {
        word_units(text, count_emoji)
    }
}

/// A text has at most as many characters as its UTF-8 encoding has bytes.
pub proof fn lemma_chars_fit_in_bytes(text: Seq<char>)
    ensures
        text.len() <= encode_utf8(text).len(),
    decreases text.len(),
{
    if text.len() > 0 {
        lemma_chars_fit_in_bytes(text.drop_first());
    }
}

/// A span that ends inside a token has at least one token, and how the tokens
/// change when one character is appended.
pub proof fn lemma_split_whitespace_push(text: Seq<char>, c: char)
    ensures
        ends_in_token(text) ==> split_whitespace(text).len() > 0,
        char_is_whitespace(c) ==> split_whitespace(text.push(c)) == split_whitespace(text),
        !char_is_whitespace(c) && ends_in_token(text) ==> split_whitespace(text.push(c))
            == split_whitespace(text).drop_last().push(split_whitespace(text).last().push(c)),
        !char_is_whitespace(c) && !ends_in_token(text) ==> split_whitespace(text.push(c))
            == split_whitespace(text).push(seq![c]),
    decreases text.len(),
{
    assert(text.push(c).drop_last() =~= text);
    if text.len() > 0 {
        lemma_split_whitespace_push(text.drop_last(), text.last());
        assert(text.drop_last().push(text.last()) =~= text);
    }
}

/// Counts the units of `text` in character mode.
pub fn count_words(text: &str, count_emoji: bool) -> (count: usize)
    ensures
        count == char_units(text@, count_emoji),
{
    // The bytes of a `str` fit in a `usize`, and so do its characters: the
    // counter cannot overflow.
    let _byte_len = text.as_bytes().len();
    proof {
        lemma_chars_fit_in_bytes(text@);
    }
    let mut count: usize = 0;
    for c in it: text.chars()
        invariant
            it.seq() == text@,
            text@.len() <= usize::MAX,
            count == char_units(text@.take(it.index()), count_emoji),
    {
        proof {
            let i = it.index();
            text@.lemma_take_succ_push(i);
            text@.take(i).lemma_filter_len_push(unit_chars(count_emoji), c);
            text@.take(i).lemma_filter_len(unit_chars(count_emoji));
        }
        let unit = !is_whitespace(c) && (!count_emoji || !is_control(c) || is_emoji(c));
        if unit {
            count = count + 1;
        }
    }
    proof {
        text@.lemma_take_len();
    }
    count
}

/// Counts the units of `text` in word mode.
pub fn count_english_words(text: &str, count_emoji: bool) -> (count: usize)
    ensures
        count == word_units(text@, count_emoji),
{
    // The bytes of a `str` fit in a `usize`, and so do its characters: the
    // counters cannot overflow.
    let _byte_len = text.as_bytes().len();
    proof {
        lemma_chars_fit_in_bytes(text@);
    }
    // Units of the tokens that have ended, and what the open token holds so far.
    let mut closed: usize = 0;
    let mut in_token = false;
    let mut emoji: usize = 0;
    let mut plain: usize = 0;
    for c in it: text.chars()
        invariant
            it.seq() == text@,
            text@.len() <= usize::MAX,
            in_token == ends_in_token(text@.take(it.index())),
            closed + plain + emoji <= it.index(),
            in_token ==> plain + emoji >= 1,
            !in_token ==> plain == 0 && emoji == 0,
            !in_token ==> closed == tokens_measure(
                split_whitespace(text@.take(it.index())),
                count_emoji,
            ),
            in_token ==> split_whitespace(text@.take(it.index())).len() > 0,
            in_token ==> closed == tokens_measure(
                split_whitespace(text@.take(it.index())).drop_last(),
                count_emoji,
            ),
            in_token && count_emoji ==> emoji == split_whitespace(
                text@.take(it.index()),
            ).last().filter(emoji_chars()).len(),
            in_token && count_emoji ==> plain == split_whitespace(
                text@.take(it.index()),
            ).last().filter(plain_chars()).len(),
            !count_emoji ==> emoji == 0,
    {
        let ghost prefix = text@.take(it.index());
        let ghost tokens = split_whitespace(prefix);
        proof {
            text@.lemma_take_succ_push(it.index());
            lemma_split_whitespace_push(prefix, c);
            assert(prefix.push(c).last() == c);
        }
        if is_whitespace(c) {
            if in_token {
                closed = closed + if emoji > 0 {
                    plain + emoji
                } else {
                    1
                };
                in_token = false;
                emoji = 0;
                plain = 0;
            }
        } else {
            proof {
                if in_token {
                    let open = tokens.last();
                    assert(tokens.drop_last().push(open.push(c)).drop_last() =~= tokens.drop_last());
                    open.lemma_filter_len_push(emoji_chars(), c);
                    open.lemma_filter_len_push(plain_chars(), c);
                } else {
                    assert(tokens.push(seq![c]).drop_last() =~= tokens);
                    assert(seq![c] =~= Seq::<char>::empty().push(c));
                    Seq::<char>::empty().lemma_filter_len_push(emoji_chars(), c);
                    Seq::<char>::empty().lemma_filter_len_push(plain_chars(), c);
                    Seq::<char>::empty().lemma_filter_len(emoji_chars());
                    Seq::<char>::empty().lemma_filter_len(plain_chars());
                }
            }
            in_token = true;
            if count_emoji && is_emoji(c) {
                emoji = emoji + 1;
            } else {
                plain = plain + 1;
            }
        }
    }
    proof {
        text@.lemma_take_len();
    }
    if in_token {
        closed = closed + if emoji > 0 {
            plain + emoji
        } else {
            1
        };
    }
    closed
}

} // verus!
