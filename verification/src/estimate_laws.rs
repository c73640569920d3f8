//! Laws of the pass over the event stream, of the time computation and of
//! the estimate as a whole.
use vstd::prelude::*;
use crate::duration::{ceil_div, format_time_spec, reading_seconds};
use crate::duration_laws::lemma_reading_seconds_is_ceiling;
use crate::estimate::{estimate_spec, ReadTimeView};
use crate::events::EventView;
use crate::speed::ReadSpeed;
use crate::tally::tally;
use crate::words::span_units;

verus! {

/// Whether an event leaves every count as it is: it is neither text nor
/// inline code, and it starts neither an image nor a code block.
pub open spec fn is_silent(event: EventView) -> bool {
    match event {
        EventView::ImageEnd | EventView::CodeBlockEnd | EventView::Other => true,
        _ => false,
    }
}

/// Whether a stream holds silent events only.
pub open spec fn is_silent_stream(events: Seq<EventView>) -> bool {
    forall|i: int| 0 <= i < events.len() ==> is_silent(#[trigger] events[i])
}

/// A stream without text, inline code, images and code blocks counts nothing.
pub proof fn lemma_silent_stream_counts_nothing(
    events: Seq<EventView>,
    count_emoji: bool,
    chinese: bool,
)
    requires
        is_silent_stream(events),
    ensures
        tally(events, count_emoji, chinese).words == 0,
        tally(events, count_emoji, chinese).images == 0,
        tally(events, count_emoji, chinese).code_blocks == 0,
    decreases events.len(),
{
    if events.len() > 0 {
        let init = events.drop_last();
        assert forall|i: int| 0 <= i < init.len() implies is_silent(#[trigger] init[i]) by {
            assert(init[i] == events[i]);
        }
        assert(is_silent(events[events.len() - 1]));
        lemma_silent_stream_counts_nothing(init, count_emoji, chinese);
    }
}

/// A document without text, images and code blocks takes no time to read:
/// all counts are zero, the time is zero seconds, and it is displayed as
/// zero seconds.
pub proof fn lemma_nothing_to_read(events: Seq<EventView>, speed: ReadSpeed)
    requires
        speed.is_usable(),
        is_silent_stream(events),
    ensures
        estimate_spec(events, speed) == (ReadTimeView {
            total_seconds: 0,
            formatted: seq!['0', '秒'],
            word_count: 0,
            image_count: 0,
            code_block_count: 0,
        }),
{
    lemma_silent_stream_counts_nothing(events, speed.count_emoji, speed.chinese);
    assert(ceil_div(0, speed.words_per_minute as nat) == 0) by (nonlinear_arith)
        requires
            speed.words_per_minute > 0,
    ;
    assert(reading_seconds(0, 0, 0, speed) == 0) by (nonlinear_arith)
        requires
            ceil_div(0, speed.words_per_minute as nat) == 0,
    ;
    assert(format_time_spec(0) =~= seq!['0', '秒']);
}

/// The seconds of an estimate are the exact reading time of its counts
/// rounded up to a whole second, provided that time fits in a `u64`.
pub proof fn lemma_total_seconds_is_ceiling(events: Seq<EventView>, speed: ReadSpeed)
    requires
        speed.is_usable(),
        reading_seconds(
            estimate_spec(events, speed).word_count as nat,
            estimate_spec(events, speed).image_count as nat,
            estimate_spec(events, speed).code_block_count as nat,
            speed,
        ) <= u64::MAX,
    ensures
        ({
            let estimate = estimate_spec(events, speed);
            let exact_times_wpm = estimate.word_count * 60 + (estimate.image_count
                * speed.seconds_per_image + estimate.code_block_count
                * speed.seconds_per_code_block) * speed.words_per_minute;
            &&& estimate.total_seconds * speed.words_per_minute >= exact_times_wpm
            &&& (estimate.total_seconds - 1) * speed.words_per_minute < exact_times_wpm
        }),
{
    let estimate = estimate_spec(events, speed);
    lemma_reading_seconds_is_ceiling(
        estimate.word_count as nat,
        estimate.image_count as nat,
        estimate.code_block_count as nat,
        speed,
    );
}

/// The display string of an estimate is the rendering of its seconds.
pub proof fn lemma_formatted_matches_seconds(events: Seq<EventView>, speed: ReadSpeed)
    ensures
        estimate_spec(events, speed).formatted == format_time_spec(
            estimate_spec(events, speed).total_seconds as nat,
        ),
{
}

/// Text inside the alternative text of an image or inside a code block is
/// not counted.
pub proof fn lemma_hidden_text_is_not_counted(
    events: Seq<EventView>,
    text: Seq<char>,
    count_emoji: bool,
    chinese: bool,
)
    requires
        tally(events, count_emoji, chinese).inside_image_alt || tally(
            events,
            count_emoji,
            chinese,
        ).inside_code_block,
    ensures
        tally(events.push(EventView::Text(text)), count_emoji, chinese) == tally(
            events,
            count_emoji,
            chinese,
        ),
{
    assert(events.push(EventView::Text(text)).drop_last() =~= events);
}

/// Text outside images and code blocks is counted.
pub proof fn lemma_visible_text_is_counted(
    events: Seq<EventView>,
    text: Seq<char>,
    count_emoji: bool,
    chinese: bool,
)
    requires
        !tally(events, count_emoji, chinese).inside_image_alt,
        !tally(events, count_emoji, chinese).inside_code_block,
    ensures
        tally(events.push(EventView::Text(text)), count_emoji, chinese).words == tally(
            events,
            count_emoji,
            chinese,
        ).words + span_units(text, count_emoji, chinese),
{
    assert(events.push(EventView::Text(text)).drop_last() =~= events);
}

/// Inline code is counted unless it lies inside a code block.
pub proof fn lemma_inline_code_is_counted(
    events: Seq<EventView>,
    code: Seq<char>,
    count_emoji: bool,
    chinese: bool,
)
    ensures
        tally(events.push(EventView::InlineCode(code)), count_emoji, chinese).words == tally(
            events,
            count_emoji,
            chinese,
        ).words + if tally(events, count_emoji, chinese).inside_code_block {
            0
        } else {
            span_units(code, count_emoji, chinese)
        },
{
    assert(events.push(EventView::InlineCode(code)).drop_last() =~= events);
}

/// After the start of an image the pass is inside its alternative text until
/// the image ends; after the start of a code block it is inside the block
/// until the block ends. An end clears its flag whether or not it was set.
pub proof fn lemma_flags_follow_structure(
    events: Seq<EventView>,
    count_emoji: bool,
    chinese: bool,
)
    ensures
        tally(events.push(EventView::ImageStart), count_emoji, chinese).inside_image_alt,
        !tally(events.push(EventView::ImageEnd), count_emoji, chinese).inside_image_alt,
        tally(events.push(EventView::CodeBlockStart), count_emoji, chinese).inside_code_block,
        !tally(events.push(EventView::CodeBlockEnd), count_emoji, chinese).inside_code_block,
        tally(events.push(EventView::ImageStart), count_emoji, chinese).images == tally(
            events,
            count_emoji,
            chinese,
        ).images + 1,
        tally(events.push(EventView::CodeBlockStart), count_emoji, chinese).code_blocks == tally(
            events,
            count_emoji,
            chinese,
        ).code_blocks + 1,
{
    assert(events.push(EventView::ImageStart).drop_last() =~= events);
    assert(events.push(EventView::ImageEnd).drop_last() =~= events);
    assert(events.push(EventView::CodeBlockStart).drop_last() =~= events);
    assert(events.push(EventView::CodeBlockEnd).drop_last() =~= events);
}

/// A stream that is continued never counts less than before.
pub proof fn lemma_counts_grow_with_stream(
    events: Seq<EventView>,
    more: Seq<EventView>,
    count_emoji: bool,
    chinese: bool,
)
    ensures
        tally(events + more, count_emoji, chinese).words >= tally(
            events,
            count_emoji,
            chinese,
        ).words,
        tally(events + more, count_emoji, chinese).images >= tally(
            events,
            count_emoji,
            chinese,
        ).images,
        tally(events + more, count_emoji, chinese).code_blocks >= tally(
            events,
            count_emoji,
            chinese,
        ).code_blocks,
    decreases more.len(),
{
    if more.len() == 0 {
        assert(events + more =~= events);
    } else {
        assert((events + more).drop_last() =~= events + more.drop_last());
        lemma_counts_grow_with_stream(events, more.drop_last(), count_emoji, chinese);
    }
}

} // verus!
