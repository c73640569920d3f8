//! The speed model: how fast a reader gets through words, images and code.
use vstd::prelude::*;

verus! {

/// Reading speed configuration.
///
/// All rates are whole numbers. A model is usable for an estimate only if
/// `words_per_minute` is positive: the base reading time divides by it.
/// Construction does not check this; the functions that divide ask for it.
#[derive(Debug, Clone, Copy)]
pub struct ReadSpeed {
    /// Words read per minute.
    pub words_per_minute: u64,
    /// Extra seconds for each image.
    pub seconds_per_image: u64,
    /// Extra seconds for each code block.
    pub seconds_per_code_block: u64,
    /// Whether emoji are counted as units of their own.
    pub count_emoji: bool,
    /// Whether text is counted by characters rather than by words.
    pub chinese: bool,
}

/// The default model: 200 words per minute, 12 seconds per image, 20 seconds
/// per code block, emoji counting on, character mode on.
pub open spec fn default_speed() -> ReadSpeed {
    ReadSpeed {
        words_per_minute: 200,
        seconds_per_image: 12,
        seconds_per_code_block: 20,
        count_emoji: true,
        chinese: true,
    }
}

impl Default for ReadSpeed {
    fn default() -> (speed: Self)
        ensures
            speed == default_speed(),
    {
        ReadSpeed {
            words_per_minute: 200,
            seconds_per_image: 12,
            seconds_per_code_block: 20,
            count_emoji: true,
            chinese: true,
        }
    }
}

impl ReadSpeed {
    /// Whether the model can be used for an estimate.
    pub open spec fn is_usable(&self) -> bool {
        self.words_per_minute > 0
    }

    /// A model with every field given.
    pub fn new(
        wpm: u64,
        seconds_per_image: u64,
        seconds_per_code_block: u64,
        count_emoji: bool,
        chinese: bool,
    ) -> (speed: Self)
        ensures
            speed == (ReadSpeed {
                words_per_minute: wpm,
                seconds_per_image,
                seconds_per_code_block,
                count_emoji,
                chinese,
            }),
    {
        ReadSpeed {
            words_per_minute: wpm,
            seconds_per_image,
            seconds_per_code_block,
            count_emoji,
            chinese,
        }
    }

    /// The same model with another number of words per minute.
    pub fn wpm(self, wpm: u64) -> (speed: Self)
        ensures
            speed == (ReadSpeed { words_per_minute: wpm, ..self }),
    {
        ReadSpeed { words_per_minute: wpm, ..self }
    }

    /// The same model with another time per image.
    pub fn image_time(self, seconds: u64) -> (speed: Self)
        ensures
            speed == (ReadSpeed { seconds_per_image: seconds, ..self }),
    {
        ReadSpeed { seconds_per_image: seconds, ..self }
    }

    /// The same model with another time per code block.
    pub fn code_block_time(self, seconds: u64) -> (speed: Self)
        ensures
            speed == (ReadSpeed { seconds_per_code_block: seconds, ..self }),
    {
        ReadSpeed { seconds_per_code_block: seconds, ..self }
    }

    /// The same model with emoji counting switched on or off.
    pub fn emoji(self, count: bool) -> (speed: Self)
        ensures
            speed == (ReadSpeed { count_emoji: count, ..self }),
    {
        ReadSpeed { count_emoji: count, ..self }
    }

    /// The same model with character mode switched on or off.
    pub fn chinese(self, is_chinese: bool) -> (speed: Self)
        ensures
            speed == (ReadSpeed { chinese: is_chinese, ..self }),
    {
        ReadSpeed { chinese: is_chinese, ..self }
    }
}

} // verus!
