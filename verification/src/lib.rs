//! Reading-time estimation for markdown documents.
//!
//! The crate counts the readable units of a document (words or characters,
//! depending on the language mode), its images and its code blocks, and turns
//! those counts into a duration with a configurable speed model.
pub mod duration;
pub mod duration_laws;
pub mod estimate;
pub mod estimate_laws;
pub mod events;
pub mod speed;
pub mod tally;
pub mod unicode;
pub mod word_laws;
pub mod words;

pub use crate::duration::{format_time, total_seconds};
pub use crate::estimate::{
    estimate,
    estimate_events,
    estimate_with_speed,
    formatted,
    minutes,
    words,
    ReadTime,
};
pub use crate::events::MarkdownEvent;
pub use crate::speed::ReadSpeed;
pub use crate::tally::{count_events, Counts};
pub use crate::unicode::is_emoji;
pub use crate::words::{count_english_words, count_words};
