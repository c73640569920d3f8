//! The estimate of a document and the entry points that compute it.
use vstd::prelude::*;
use crate::duration::{
    clamp_seconds,
    format_time,
    format_time_spec,
    minutes_spec,
    reading_seconds,
    total_seconds,
};
use crate::events::{event_views, markdown_events, parse_markdown, EventView, MarkdownEvent};
use crate::speed::{default_speed, ReadSpeed};
use crate::tally::{clamp_count, count_events, tally};

verus! {

/// The result of an estimate.
#[derive(Debug, Clone, PartialEq)]
pub struct ReadTime {
    /// Total reading time in seconds.
    pub total_seconds: u64,
    /// The reading time as it is displayed.
    pub formatted: String,
    /// Units of text: words or characters, depending on the language mode.
    pub word_count: usize,
    /// Number of images.
    pub image_count: usize,
    /// Number of code blocks.
    pub code_block_count: usize,
}

/// The mathematical value of a `ReadTime`: the display string is a sequence
/// of characters.
pub struct ReadTimeView {
    pub total_seconds: u64,
    pub formatted: Seq<char>,
    pub word_count: usize,
    pub image_count: usize,
    pub code_block_count: usize,
}

impl View for ReadTime {
    type V = ReadTimeView;

    open spec fn view(&self) -> ReadTimeView {
        ReadTimeView {
            total_seconds: self.total_seconds,
            formatted: self.formatted@,
            word_count: self.word_count,
            image_count: self.image_count,
            code_block_count: self.code_block_count,
        }
    }
}

/// The estimate for an event stream under a speed model.
///
/// The counts are those of one pass over the stream. The time is the exact
/// reading time of those counts rounded up to a whole second, and the display
/// string renders that number of seconds. Counts and seconds beyond what
/// their types hold are stored as the largest value of the type.
pub open spec fn estimate_spec(events: Seq<EventView>, speed: ReadSpeed) -> ReadTimeView
    recommends
        speed.is_usable(),
{
    let counted = tally(events, speed.count_emoji, speed.chinese);
    let word_count = clamp_count(counted.words);
    let image_count = clamp_count(counted.images);
    let code_block_count = clamp_count(counted.code_blocks);
    let seconds = clamp_seconds(
        reading_seconds(word_count as nat, image_count as nat, code_block_count as nat, speed),
    );
    ReadTimeView {
        total_seconds: seconds,
        formatted: format_time_spec(seconds as nat),
        word_count,
        image_count,
        code_block_count,
    }
}

/// Estimates the reading time of an event stream.
pub fn estimate_events(events: &Vec<MarkdownEvent>, speed: &ReadSpeed) -> (result: ReadTime)
    requires
        speed.is_usable(),
    ensures
        result@ == estimate_spec(event_views(events@), *speed),
        result.formatted@ == format_time_spec(result.total_seconds as nat),
{
    let counts = count_events(events, speed.count_emoji, speed.chinese);
    let seconds = total_seconds(
        counts.word_count,
        counts.image_count,
        counts.code_block_count,
        speed,
    );
    ReadTime {
        total_seconds: seconds,
        formatted: format_time(seconds),
        word_count: counts.word_count,
        image_count: counts.image_count,
        code_block_count: counts.code_block_count,
    }
}

/// Estimates the reading time of a markdown document under a speed model.
pub fn estimate_with_speed(markdown: &str, speed: &ReadSpeed) -> (result: ReadTime)
    requires
        speed.is_usable(),
    ensures
        result@ == estimate_spec(markdown_events(markdown@), *speed),
        result.formatted@ == format_time_spec(result.total_seconds as nat),
{
    let events = parse_markdown(markdown);
    estimate_events(&events, speed)
}

/// Estimates the reading time of a markdown document under the default speed
/// model.
pub fn estimate(markdown: &str) -> (result: ReadTime)
    ensures
        result@ == estimate_spec(markdown_events(markdown@), default_speed()),
        result.formatted@ == format_time_spec(result.total_seconds as nat),
{
    estimate_with_speed(markdown, &ReadSpeed::default())
}

/// The reading time of a markdown document in minutes, rounded up.
pub fn minutes(markdown: &str) -> (minutes: u64)
    ensures
        minutes == minutes_spec(
            estimate_spec(markdown_events(markdown@), default_speed()).total_seconds as nat,
        ),
{
    let seconds = estimate(markdown).total_seconds;
    if seconds % 60 == 0 {
        seconds / 60
    } else {
        seconds / 60 + 1
    }
}

/// The number of units of text in a markdown document.
pub fn words(markdown: &str) -> (count: usize)
    ensures
        count == estimate_spec(markdown_events(markdown@), default_speed()).word_count,
{
    estimate(markdown).word_count
}

/// The reading time of a markdown document as it is displayed.
pub fn formatted(markdown: &str) -> (text: String)
    ensures
        text@ == estimate_spec(markdown_events(markdown@), default_speed()).formatted,
{
    estimate(markdown).formatted
}

} // verus!
