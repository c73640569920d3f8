//! Laws of the word counter: what the tokens of a span are, how counts behave
//! when spans are joined or grow, and what the emoji flag changes.
use vstd::prelude::*;
use crate::unicode::{char_is_control, char_is_whitespace, spec_is_emoji};
use crate::words::{
    char_units,
    emoji_chars,
    ends_in_token,
    lemma_split_whitespace_push,
    plain_chars,
    span_units,
    split_whitespace,
    token_units,
    tokens_measure,
    total_token_units,
    unit_chars,
    word_units,
};

verus! {

/// Whether a span holds no whitespace.
pub open spec fn has_no_whitespace(text: Seq<char>) -> bool {
    forall|i: int| 0 <= i < text.len() ==> !char_is_whitespace(#[trigger] text[i])
}

/// Whether a span holds no emoji.
pub open spec fn has_no_emoji(text: Seq<char>) -> bool {
    forall|i: int| 0 <= i < text.len() ==> !spec_is_emoji(#[trigger] text[i])
}

/// Whether a span begins inside a token, that is with a character that is not
/// whitespace.
pub open spec fn starts_in_token(text: Seq<char>) -> bool {
    text.len() > 0 && !char_is_whitespace(text.first())
}

/// The tokens of two spans written one after the other, where the first ends
/// inside a token and the second begins inside one: the last token of the
/// first and the first token of the second become one token.
pub open spec fn join_tokens(left: Seq<Seq<char>>, right: Seq<Seq<char>>) -> Seq<Seq<char>>
    recommends
        left.len() > 0,
        right.len() > 0,
{
    left.drop_last().push(left.last() + right.first()) + right.drop_first()
}

/// Every token is a word: it is not empty and holds no whitespace.
pub proof fn lemma_tokens_are_words(text: Seq<char>)
    ensures
        forall|i: int|
            0 <= i < split_whitespace(text).len() ==> (#[trigger] split_whitespace(text)[i]).len()
                > 0 && has_no_whitespace(split_whitespace(text)[i]),
    decreases text.len(),
{
    if text.len() > 0 {
        let init = text.drop_last();
        let c = text.last();
        lemma_tokens_are_words(init);
        lemma_split_whitespace_push(init, c);
        assert(init.push(c) =~= text);
    }
}

/// The tokens of a span, written one after the other, are the span without
/// its whitespace.
pub proof fn lemma_tokens_hold_the_visible_text(text: Seq<char>)
    ensures
        split_whitespace(text).flatten() == text.filter(unit_chars(false)),
    decreases text.len(),
{
    if text.len() == 0 {
        text.lemma_filter_len(unit_chars(false));
        assert(split_whitespace(text).flatten() =~= text.filter(unit_chars(false)));
    } else {
        let init = text.drop_last();
        let c = text.last();
        let tokens = split_whitespace(init);
        assert(init.push(c) =~= text);
        lemma_tokens_hold_the_visible_text(init);
        lemma_split_whitespace_push(init, c);
        init.lemma_filter_push(c, unit_chars(false));
        if char_is_whitespace(c) {
        } else if ends_in_token(init) {
            assert(tokens.drop_last().push(tokens.last()) =~= tokens);
            tokens.drop_last().lemma_flatten_push(tokens.last());
            tokens.drop_last().lemma_flatten_push(tokens.last().push(c));
            assert(split_whitespace(text).flatten() =~= text.filter(unit_chars(false)));
        } else {
            tokens.lemma_flatten_push(seq![c]);
            assert(split_whitespace(text).flatten() =~= text.filter(unit_chars(false)));
        }
    }
}

/// Whether a token begins at position `i` of a span: the character there is
/// not whitespace, and it is the first of the span or follows whitespace.
pub open spec fn is_token_start(text: Seq<char>, i: int) -> bool
    recommends
        0 <= i < text.len(),
{
    !char_is_whitespace(text[i]) && (i == 0 || char_is_whitespace(text[i - 1]))
}

/// The number of positions of a span at which a token begins.
pub open spec fn token_starts(text: Seq<char>) -> nat
    decreases text.len(),
{
    if text.len() == 0 {
        0
    } else {
        token_starts(text.drop_last()) + if is_token_start(text, text.len() - 1) {
            1nat
        } else {
            0nat
        }
    }
}

/// A span has one token for each position at which a token begins: tokens
/// are maximal runs, never parts of a run.
pub proof fn lemma_one_token_per_start(text: Seq<char>)
    ensures
        split_whitespace(text).len() == token_starts(text),
    decreases text.len(),
{
    if text.len() > 0 {
        let init = text.drop_last();
        assert(init.push(text.last()) =~= text);
        lemma_one_token_per_start(init);
        lemma_split_whitespace_push(init, text.last());
        if init.len() > 0 {
            assert(init.last() == text[text.len() - 2]);
        }
    }
}

/// In character mode the units of two spans written one after the other are
/// the units of the first plus the units of the second.
pub proof fn lemma_char_units_additive(a: Seq<char>, b: Seq<char>, count_emoji: bool)
    ensures
        char_units(a + b, count_emoji) == char_units(a, count_emoji) + char_units(b, count_emoji),
{
    Seq::filter_distributes_over_add(a, b, unit_chars(count_emoji));
}

/// The units of a sequence of tokens followed by one more token.
pub proof fn lemma_total_token_units_push(tokens: Seq<Seq<char>>, token: Seq<char>)
    ensures
        total_token_units(tokens.push(token)) == total_token_units(tokens) + token_units(token),
{
    assert(tokens.push(token).drop_last() =~= tokens);
}

/// The units of two sequences of tokens, one after the other.
pub proof fn lemma_total_token_units_concat(a: Seq<Seq<char>>, b: Seq<Seq<char>>)
    ensures
        total_token_units(a + b) == total_token_units(a) + total_token_units(b),
    decreases b.len(),
{
    if b.len() == 0 {
        assert(a + b =~= a);
    } else {
        assert((a + b).drop_last() =~= a + b.drop_last());
        lemma_total_token_units_concat(a, b.drop_last());
    }
}

/// What a sequence of tokens contributes, split into its first token and the rest.
pub proof fn lemma_tokens_measure_first(tokens: Seq<Seq<char>>, count_emoji: bool)
    requires
        tokens.len() > 0,
    ensures
        tokens_measure(tokens, count_emoji) == tokens_measure(tokens.drop_first(), count_emoji)
            + if count_emoji {
            token_units(tokens.first())
        } else {
            1
        },
{
    let head = Seq::<Seq<char>>::empty().push(tokens.first());
    assert(head + tokens.drop_first() =~= tokens);
    lemma_total_token_units_concat(head, tokens.drop_first());
    lemma_total_token_units_push(Seq::<Seq<char>>::empty(), tokens.first());
}

/// What two sequences of tokens contribute, one after the other.
pub proof fn lemma_tokens_measure_concat(
    a: Seq<Seq<char>>,
    b: Seq<Seq<char>>,
    count_emoji: bool,
)
    ensures
        tokens_measure(a + b, count_emoji) == tokens_measure(a, count_emoji) + tokens_measure(
            b,
            count_emoji,
        ),
{
    lemma_total_token_units_concat(a, b);
}

/// What joined tokens contribute: the tokens before the seam, the token at
/// the seam, and the tokens after it.
pub proof fn lemma_tokens_measure_join(
    left: Seq<Seq<char>>,
    right: Seq<Seq<char>>,
    count_emoji: bool,
)
    requires
        left.len() > 0,
        right.len() > 0,
    ensures
        tokens_measure(join_tokens(left, right), count_emoji) == tokens_measure(
            left.drop_last(),
            count_emoji,
        ) + tokens_measure(right.drop_first(), count_emoji) + if count_emoji {
            token_units(left.last() + right.first())
        } else {
            1
        },
{
    let seam = left.last() + right.first();
    lemma_total_token_units_concat(left.drop_last().push(seam), right.drop_first());
    lemma_total_token_units_push(left.drop_last(), seam);
}

/// A token never loses units when characters are put into it.
pub proof fn lemma_token_units_insert(before: Seq<char>, inserted: Seq<char>, after: Seq<char>)
    ensures
        token_units(before + inserted + after) >= token_units(before + after),
        inserted.len() == 0 ==> token_units(before + inserted + after) == token_units(
            before + after,
        ),
{
    Seq::filter_distributes_over_add(before, after, emoji_chars());
    Seq::filter_distributes_over_add(before, after, plain_chars());
    Seq::filter_distributes_over_add(before, inserted, emoji_chars());
    Seq::filter_distributes_over_add(before, inserted, plain_chars());
    Seq::filter_distributes_over_add(before + inserted, after, emoji_chars());
    Seq::filter_distributes_over_add(before + inserted, after, plain_chars());
    if inserted.len() == 0 {
        assert(before + inserted =~= before);
    }
}

/// The tokens of two spans written one after the other.
///
/// Where the first span ends inside a token and the second begins inside one,
/// the two tokens at the seam become one. Otherwise the tokens of the whole
/// are the tokens of the first span followed by those of the second.
pub proof fn lemma_split_whitespace_concat(x: Seq<char>, y: Seq<char>)
    ensures
        starts_in_token(y) ==> split_whitespace(y).len() > 0,
        ends_in_token(x) ==> split_whitespace(x).len() > 0,
        ends_in_token(x) && starts_in_token(y) ==> split_whitespace(x + y) == join_tokens(
            split_whitespace(x),
            split_whitespace(y),
        ),
        !(ends_in_token(x) && starts_in_token(y)) ==> split_whitespace(x + y) == split_whitespace(
            x,
        ) + split_whitespace(y),
    decreases y.len(),
{
    let tx = split_whitespace(x);
    if x.len() > 0 {
        lemma_split_whitespace_push(x.drop_last(), x.last());
        assert(x.drop_last().push(x.last()) =~= x);
    }
    if y.len() == 0 {
        assert(x + y =~= x);
        assert(tx + split_whitespace(y) =~= tx);
    } else {
        let init = y.drop_last();
        let d = y.last();
        let ty = split_whitespace(init);
        let tz = split_whitespace(x + init);
        assert(x + y =~= (x + init).push(d));
        assert(init.push(d) =~= y);
        lemma_split_whitespace_push(x + init, d);
        lemma_split_whitespace_push(init, d);
        lemma_split_whitespace_concat(x, init);
        if init.len() == 0 {
            assert(x + init =~= x);
            if char_is_whitespace(d) {
                assert(tx + split_whitespace(y) =~= tx);
            } else if ends_in_token(x) {
                assert(tx.last().push(d) =~= tx.last() + split_whitespace(y).first());
                assert(split_whitespace(x + y) =~= join_tokens(tx, split_whitespace(y)));
            } else {
                assert(split_whitespace(x + y) =~= tx + split_whitespace(y));
            }
        } else {
            assert((x + init).last() == init.last());
            assert(y.first() == init.first());
            if char_is_whitespace(d) {
            } else if ends_in_token(x) && starts_in_token(init) {
                if ends_in_token(init) {
                    if ty.len() == 1 {
                        assert(tz.last() =~= tx.last() + ty.first());
                        assert(tz.last().push(d) =~= tx.last() + ty.first().push(d));
                        assert(split_whitespace(x + y) =~= join_tokens(tx, split_whitespace(y)));
                    } else {
                        assert(tz.last() =~= ty.last());
                        assert(split_whitespace(x + y) =~= join_tokens(tx, split_whitespace(y)));
                    }
                } else {
                    assert(split_whitespace(x + y) =~= join_tokens(tx, split_whitespace(y)));
                }
            } else {
                assert(split_whitespace(x + y) =~= tx + split_whitespace(y));
            }
        }
    }
}

/// A span without whitespace that is not empty is one token.
pub proof fn lemma_single_token(word: Seq<char>)
    requires
        word.len() > 0,
        has_no_whitespace(word),
    ensures
        split_whitespace(word) == seq![word],
    decreases word.len(),
{
    let init = word.drop_last();
    let c = word.last();
    assert(init.push(c) =~= word);
    lemma_split_whitespace_push(init, c);
    if init.len() > 0 {
        assert forall|i: int| 0 <= i < init.len() implies !char_is_whitespace(
            #[trigger] init[i],
        ) by {
            assert(init[i] == word[i]);
        }
        lemma_single_token(init);
        assert(seq![init].drop_last().push(seq![init].last().push(c)) =~= seq![word]);
    } else {
        assert(seq![c] =~= word);
        assert(Seq::<Seq<char>>::empty().push(seq![c]) =~= seq![word]);
    }
}

/// In word mode a span that is continued never counts less than before.
pub proof fn lemma_word_units_append(a: Seq<char>, b: Seq<char>, count_emoji: bool)
    ensures
        word_units(a + b, count_emoji) >= word_units(a, count_emoji),
{
    let ta = split_whitespace(a);
    let tb = split_whitespace(b);
    lemma_split_whitespace_concat(a, b);
    if ends_in_token(a) && starts_in_token(b) {
        lemma_tokens_measure_join(ta, tb, count_emoji);
        assert(ta.drop_last().push(ta.last()) =~= ta);
        lemma_total_token_units_push(ta.drop_last(), ta.last());
        lemma_token_units_insert(ta.last(), tb.first(), Seq::empty());
        assert(ta.last() + tb.first() + Seq::<char>::empty() =~= ta.last() + tb.first());
        assert(ta.last() + Seq::<char>::empty() =~= ta.last());
    } else {
        lemma_tokens_measure_concat(ta, tb, count_emoji);
    }
}

/// In word mode, putting characters that are not whitespace anywhere into a
/// span never lowers its count.
pub proof fn lemma_word_units_insert(
    before: Seq<char>,
    inserted: Seq<char>,
    after: Seq<char>,
    count_emoji: bool,
)
    requires
        has_no_whitespace(inserted),
    ensures
        word_units(before + inserted + after, count_emoji) >= word_units(
            before + after,
            count_emoji,
        ),
{
    if inserted.len() == 0 {
        assert(before + inserted =~= before);
    } else {
        let tb = split_whitespace(before);
        let ta = split_whitespace(after);
        let grown = before + inserted;
        let tg = split_whitespace(grown);
        lemma_single_token(inserted);
        lemma_split_whitespace_concat(before, inserted);
        lemma_split_whitespace_concat(grown, after);
        lemma_split_whitespace_concat(before, after);
        assert(grown.last() == inserted.last());
        assert(ends_in_token(grown));
        assert(starts_in_token(inserted));
        let empty = Seq::<char>::empty();
        // The tokens of `grown`: those of `before`, with `inserted` as a new
        // last token or as the continuation of the last one.
        let kept = if ends_in_token(before) {
            tb.drop_last()
        } else {
            tb
        };
        let open = if ends_in_token(before) {
            tb.last()
        } else {
            empty
        };
        assert(open + inserted =~= if ends_in_token(before) {
            tb.last() + inserted
        } else {
            inserted
        });
        assert(tg =~= kept.push(open + inserted));
        assert(tg.drop_last() =~= kept);
        assert(tg.last() == open + inserted);
        lemma_total_token_units_push(kept, open);
        if ends_in_token(before) {
            assert(kept.push(open) =~= tb);
        }
        lemma_total_token_units_push(kept, open + inserted);
        if starts_in_token(after) {
            lemma_tokens_measure_join(tg, ta, count_emoji);
            lemma_tokens_measure_first(ta, count_emoji);
            lemma_token_units_insert(open, inserted, ta.first());
            if ends_in_token(before) {
                lemma_tokens_measure_join(tb, ta, count_emoji);
            } else {
                lemma_tokens_measure_concat(tb, ta, count_emoji);
                assert(open + ta.first() =~= ta.first());
            }
        } else {
            lemma_tokens_measure_concat(tg, ta, count_emoji);
            lemma_tokens_measure_concat(tb, ta, count_emoji);
            lemma_token_units_insert(open, inserted, empty);
            assert(open + inserted + empty =~= open + inserted);
            assert(open + empty =~= open);
        }
    }
}

/// Adding content that is not whitespace to a span never lowers its count,
/// in either language mode and with either setting of the emoji flag.
pub proof fn lemma_span_units_insert(
    before: Seq<char>,
    inserted: Seq<char>,
    after: Seq<char>,
    count_emoji: bool,
    chinese: bool,
)
    requires
        has_no_whitespace(inserted),
    ensures
        span_units(before + inserted + after, count_emoji, chinese) >= span_units(
            before + after,
            count_emoji,
            chinese,
        ),
{
    if chinese {
        lemma_char_units_additive(before, after, count_emoji);
        lemma_char_units_additive(before, inserted, count_emoji);
        lemma_char_units_additive(before + inserted, after, count_emoji);
    } else {
        lemma_word_units_insert(before, inserted, after, count_emoji);
    }
}

/// A span that is continued never counts less than before, in either
/// language mode and with either setting of the emoji flag.
pub proof fn lemma_span_units_append(a: Seq<char>, b: Seq<char>, count_emoji: bool, chinese: bool)
    ensures
        span_units(a + b, count_emoji, chinese) >= span_units(a, count_emoji, chinese),
{
    if chinese {
        lemma_char_units_additive(a, b, count_emoji);
    } else {
        lemma_word_units_append(a, b, count_emoji);
    }
}

/// With emoji counting on, a word that holds an emoji counts one unit for
/// each of its characters, and a word without emoji counts one unit.
pub proof fn lemma_token_units_of_word(word: Seq<char>)
    requires
        has_no_whitespace(word),
    ensures
        word.filter(emoji_chars()).len() + word.filter(plain_chars()).len() == word.len(),
        token_units(word) == if word.filter(emoji_chars()).len() > 0 {
            word.len()
        } else {
            1
        },
        has_no_emoji(word) <==> word.filter(emoji_chars()).len() == 0,
    decreases word.len(),
{
    if word.len() == 0 {
        word.lemma_filter_len(emoji_chars());
        word.lemma_filter_len(plain_chars());
    } else {
        let init = word.drop_last();
        let c = word.last();
        assert(init.push(c) =~= word);
        assert forall|i: int| 0 <= i < init.len() implies !char_is_whitespace(
            #[trigger] init[i],
        ) by {
            assert(init[i] == word[i]);
        }
        lemma_token_units_of_word(init);
        init.lemma_filter_len_push(emoji_chars(), c);
        init.lemma_filter_len_push(plain_chars(), c);
        if has_no_emoji(init) && !spec_is_emoji(c) {
            assert forall|i: int| 0 <= i < word.len() implies !spec_is_emoji(
                #[trigger] word[i],
            ) by {
                if i < init.len() {
                    assert(word[i] == init[i]);
                }
            }
        }
        if has_no_emoji(word) {
            assert(!spec_is_emoji(word[word.len() - 1]));
            assert forall|i: int| 0 <= i < init.len() implies !spec_is_emoji(
                #[trigger] init[i],
            ) by {
                assert(init[i] == word[i]);
            }
        }
    }
}

/// Every token counts at least one unit, so the units of a sequence of
/// tokens are at least their number.
pub proof fn lemma_total_token_units_lower_bound(tokens: Seq<Seq<char>>)
    ensures
        total_token_units(tokens) >= tokens.len(),
    decreases tokens.len(),
{
    if tokens.len() > 0 {
        lemma_total_token_units_lower_bound(tokens.drop_last());
    }
}

/// The tokens of a span without emoji hold no emoji.
pub proof fn lemma_tokens_without_emoji(text: Seq<char>)
    requires
        has_no_emoji(text),
    ensures
        forall|i: int|
            0 <= i < split_whitespace(text).len() ==> (#[trigger] split_whitespace(
                text,
            )[i]).filter(emoji_chars()).len() == 0,
        total_token_units(split_whitespace(text)) == split_whitespace(text).len(),
    decreases text.len(),
{
    if text.len() > 0 {
        let init = text.drop_last();
        let c = text.last();
        assert(init.push(c) =~= text);
        assert forall|i: int| 0 <= i < init.len() implies !spec_is_emoji(#[trigger] init[i]) by {
            assert(init[i] == text[i]);
        }
        assert(!spec_is_emoji(text[text.len() - 1]));
        lemma_tokens_without_emoji(init);
        lemma_split_whitespace_push(init, c);
        let tokens = split_whitespace(init);
        if char_is_whitespace(c) {
        } else if ends_in_token(init) {
            tokens.last().lemma_filter_len_push(emoji_chars(), c);
            assert(tokens.drop_last().push(tokens.last()) =~= tokens);
            lemma_total_token_units_push(tokens.drop_last(), tokens.last());
            lemma_total_token_units_push(tokens.drop_last(), tokens.last().push(c));
        } else {
            Seq::<char>::empty().lemma_filter_len_push(emoji_chars(), c);
            Seq::<char>::empty().lemma_filter_len(emoji_chars());
            assert(seq![c] =~= Seq::<char>::empty().push(c));
            lemma_total_token_units_push(tokens, seq![c]);
        }
    }
}

/// What the emoji flag changes in word mode.
///
/// With the flag off a span counts one unit for each token. With the flag on
/// it never counts less, and it counts the same if the span holds no emoji:
/// only tokens with emoji contribute more than one unit.
pub proof fn lemma_emoji_flag_in_word_mode(text: Seq<char>)
    ensures
        word_units(text, false) == split_whitespace(text).len(),
        word_units(text, true) >= word_units(text, false),
        has_no_emoji(text) ==> word_units(text, true) == word_units(text, false),
{
    lemma_total_token_units_lower_bound(split_whitespace(text));
    if has_no_emoji(text) {
        lemma_tokens_without_emoji(text);
    }
}

/// What the emoji flag changes in character mode.
///
/// With the flag off every character that is not whitespace is a unit. With
/// the flag on, control characters that are not emoji stop counting, so the
/// count never grows, and it stays the same if the span holds no such
/// character.
pub proof fn lemma_emoji_flag_in_char_mode(text: Seq<char>)
    ensures
        char_units(text, true) <= char_units(text, false),
        (forall|i: int|
            0 <= i < text.len() ==> !char_is_control(#[trigger] text[i]) || spec_is_emoji(text[i]))
            ==> char_units(text, true) == char_units(text, false),
    decreases text.len(),
{
    if text.len() == 0 {
        text.lemma_filter_len(unit_chars(true));
        text.lemma_filter_len(unit_chars(false));
    } else {
        let init = text.drop_last();
        let c = text.last();
        assert(init.push(c) =~= text);
        lemma_emoji_flag_in_char_mode(init);
        init.lemma_filter_len_push(unit_chars(true), c);
        init.lemma_filter_len_push(unit_chars(false), c);
        if forall|i: int|
            0 <= i < text.len() ==> !char_is_control(#[trigger] text[i]) || spec_is_emoji(text[i]) {
            assert forall|i: int| 0 <= i < init.len() implies !char_is_control(
                #[trigger] init[i],
            ) || spec_is_emoji(init[i]) by {
                assert(init[i] == text[i]);
            }
            assert(!char_is_control(text[text.len() - 1]) || spec_is_emoji(text[text.len() - 1]));
        }
    }
}

} // verus!
