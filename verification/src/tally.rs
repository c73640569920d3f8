//! One forward pass over an event stream that counts words, images and code
//! blocks.
use vstd::prelude::*;
use crate::events::{event_views, EventView, MarkdownEvent};
use crate::words::{count_english_words, count_words, span_units};

verus! {

/// The running state of the pass: what was counted so far, and whether the
/// pass is inside a code block or inside the alternative text of an image.
pub struct Tally {
    pub words: nat,
    pub images: nat,
    pub code_blocks: nat,
    pub inside_code_block: bool,
    pub inside_image_alt: bool,
}

/// The state before the first event.
pub open spec fn empty_tally() -> Tally {
    Tally { words: 0, images: 0, code_blocks: 0, inside_code_block: false, inside_image_alt: false }
}

/// The state after one more event.
///
/// The start of an image or of a code block is counted and sets its flag; the
/// end clears the flag, whether or not it was set. Text counts unless it lies
/// inside an image's alternative text or inside a code block. Inline code
/// counts unless it lies inside a code block. Nothing else changes the state.
pub open spec fn tally_step(t: Tally, event: EventView, count_emoji: bool, chinese: bool) -> Tally {
    match event {
        EventView::ImageStart => Tally { images: t.images + 1, inside_image_alt: true, ..t },
        EventView::ImageEnd => Tally { inside_image_alt: false, ..t },
        EventView::CodeBlockStart => Tally {
            code_blocks: t.code_blocks + 1,
            inside_code_block: true,
            ..t
        },
        EventView::CodeBlockEnd => Tally { inside_code_block: false, ..t },
        EventView::Text(text) => if !t.inside_image_alt && !t.inside_code_block {
            Tally { words: t.words + span_units(text, count_emoji, chinese), ..t }
        } else {
            t
        },
        EventView::InlineCode(code) => if !t.inside_code_block {
            Tally { words: t.words + span_units(code, count_emoji, chinese), ..t }
        } else {
            t
        },
        EventView::Other => t,
    }
}

/// The state after a whole event stream, taken from left to right.
pub open spec fn tally(events: Seq<EventView>, count_emoji: bool, chinese: bool) -> Tally
    decreases events.len(),
{
    if events.len() == 0 {
        empty_tally()
    } else {
        tally_step(
            tally(events.drop_last(), count_emoji, chinese),
            events.last(),
            count_emoji,
            chinese,
        )
    }
}

/// A count as it is stored: the largest `usize` stands for every larger number.
pub open spec fn clamp_count(n: nat) -> usize {
    if n > usize::MAX {
        usize::MAX
    } else {
        n as usize
    }
}

/// What one pass over a document counted.
#[derive(Debug, Clone, Copy)]
pub struct Counts {
    /// Units of text: words or characters, depending on the language mode.
    pub word_count: usize,
    /// Images.
    pub image_count: usize,
    /// Code blocks.
    pub code_block_count: usize,
}

/// A stream holds at most as many images and code blocks as it has events.
pub proof fn lemma_tally_structure_bound(events: Seq<EventView>, count_emoji: bool, chinese: bool)
    ensures
        tally(events, count_emoji, chinese).images + tally(events, count_emoji, chinese).code_blocks
            <= events.len(),
    decreases events.len(),
{
    if events.len() > 0 {
        lemma_tally_structure_bound(events.drop_last(), count_emoji, chinese);
    }
}

/// Counts the words, images and code blocks of an event stream in one pass.
///
/// A word count beyond the largest `usize` is reported as the largest `usize`.
pub fn count_events(
    events: &Vec<MarkdownEvent>,
    count_emoji: bool,
    chinese: bool,
) -> (counts: Counts)
    ensures
        counts.word_count == clamp_count(tally(event_views(events@), count_emoji, chinese).words),
        counts.image_count == tally(event_views(events@), count_emoji, chinese).images,
        counts.code_block_count == tally(event_views(events@), count_emoji, chinese).code_blocks,
{
    let ghost views = event_views(events@);
    let mut word_count: usize = 0;
    let mut image_count: usize = 0;
    let mut code_block_count: usize = 0;
    let mut inside_code_block = false;
    let mut inside_image_alt = false;
    let mut i: usize = 0;
    while i < events.len()
        invariant
            i <= events.len(),
            views == event_views(events@),
            word_count == clamp_count(tally(views.take(i as int), count_emoji, chinese).words),
            image_count == tally(views.take(i as int), count_emoji, chinese).images,
            code_block_count == tally(views.take(i as int), count_emoji, chinese).code_blocks,
            inside_code_block == tally(views.take(i as int), count_emoji, chinese).inside_code_block,
            inside_image_alt == tally(views.take(i as int), count_emoji, chinese).inside_image_alt,
        decreases events.len() - i,
    {
        proof {
            views.lemma_take_succ_push(i as int);
            assert(views.take(i + 1).drop_last() =~= views.take(i as int));
            lemma_tally_structure_bound(views.take(i as int), count_emoji, chinese);
        }
        match &events[i] {
            MarkdownEvent::ImageStart => {
                image_count = image_count + 1;
                inside_image_alt = true;
            },
            MarkdownEvent::ImageEnd => {
                inside_image_alt = false;
            },
            MarkdownEvent::CodeBlockStart => {
                code_block_count = code_block_count + 1;
                inside_code_block = true;
            },
            MarkdownEvent::CodeBlockEnd => {
                inside_code_block = false;
            },
            MarkdownEvent::Text(text) => {
                if !inside_image_alt && !inside_code_block {
                    word_count = word_count.saturating_add(
                        count_span(text.as_str(), count_emoji, chinese),
                    );
                }
            },
            MarkdownEvent::InlineCode(code) => {
                if !inside_code_block {
                    word_count = word_count.saturating_add(
                        count_span(code.as_str(), count_emoji, chinese),
                    );
                }
            },
            MarkdownEvent::Other => {},
        }
        i = i + 1;
    }
    proof {
        views.lemma_take_len();
    }
    Counts { word_count, image_count, code_block_count }
}

/// Counts the units of one span in the given language mode.
pub fn count_span(text: &str, count_emoji: bool, chinese: bool) -> (count: usize)
    ensures
        count == span_units(text@, count_emoji, chinese),
{
    if chinese {
        count_words(text, count_emoji)
    } else {
        count_english_words(text, count_emoji)
    }
}

} // verus!
