//! The event stream of a markdown document, as far as reading time depends on it.
use vstd::prelude::*;
use pulldown_cmark::{Event, Parser, Tag, TagEnd};

verus! {

/// One event of a document's event stream.
///
/// Only what the estimate depends on is told apart: where images and code
/// blocks begin and end, text, and inline code. Every other event is `Other`.
#[derive(Debug, Clone)]
pub enum MarkdownEvent {
    /// An image begins; what follows up to `ImageEnd` is its alternative text.
    ImageStart,
    /// An image ends.
    ImageEnd,
    /// A fenced or indented code block begins.
    CodeBlockStart,
    /// A code block ends.
    CodeBlockEnd,
    /// A span of text.
    Text(String),
    /// A span of inline code.
    InlineCode(String),
    /// Any other event.
    Other,
}

/// The mathematical value of a `MarkdownEvent`: text is a sequence of characters.
pub enum EventView {
    ImageStart,
    ImageEnd,
    CodeBlockStart,
    CodeBlockEnd,
    Text(Seq<char>),
    InlineCode(Seq<char>),
    Other,
}

impl View for MarkdownEvent {
    type V = EventView;

    open spec fn view(&self) -> EventView {
        match *self {
            MarkdownEvent::ImageStart => EventView::ImageStart,
            MarkdownEvent::ImageEnd => EventView::ImageEnd,
            MarkdownEvent::CodeBlockStart => EventView::CodeBlockStart,
            MarkdownEvent::CodeBlockEnd => EventView::CodeBlockEnd,
            MarkdownEvent::Text(text) => EventView::Text(text@),
            MarkdownEvent::InlineCode(code) => EventView::InlineCode(code@),
            MarkdownEvent::Other => EventView::Other,
        }
    }
}

/// The values of a sequence of events, one by one.
pub open spec fn event_views(events: Seq<MarkdownEvent>) -> Seq<EventView> {
    Seq::new(events.len(), |i: int| events[i]@)
}

/// The event stream of a markdown source: the events that the CommonMark
/// parser yields for it with no extension enabled, each reduced to what
/// `MarkdownEvent` tells apart.
pub uninterp spec fn markdown_events(source: Seq<char>) -> Seq<EventView>;

/// Runs `pulldown_cmark::Parser::new` over `markdown` and collects its events.
///
/// The contract gives the result a name and says nothing more of it: the
/// events are a function of the source text alone, and the grammar that
/// decides them is the parser's.
#[verifier::external_body]
pub(crate) fn parse_markdown(markdown: &str) -> (events: Vec<MarkdownEvent>)
    ensures
        event_views(events@) == markdown_events(markdown@),
{
    Parser::new(markdown).map(|event| match event {
        Event::Start(Tag::Image { .. }) => MarkdownEvent::ImageStart,
        Event::End(TagEnd::Image) => MarkdownEvent::ImageEnd,
        Event::Start(Tag::CodeBlock(_)) => MarkdownEvent::CodeBlockStart,
        Event::End(TagEnd::CodeBlock) => MarkdownEvent::CodeBlockEnd,
        Event::Text(text) => MarkdownEvent::Text(text.to_string()),
        Event::Code(code) => MarkdownEvent::InlineCode(code.to_string()),
        _ => MarkdownEvent::Other,
    }).collect()
}

} // verus!
