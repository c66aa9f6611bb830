//! The structural events of a markdown document, as the markdown parser reports them.
use vstd::prelude::*;

use pulldown_cmark::{Event, Parser, Tag, TagEnd};

verus! {

/// One structural event of a markdown document. Kinds that the metrics do not
/// read are all `Other`.
#[derive(Debug, Clone, PartialEq, Eq)]
pub enum MdEvent {
    StartBlockQuote,
    EndBlockQuote,
    /// The start of a heading of the given level (1 to 6).
    StartHeading(u8),
    /// The end of a heading of the given level (1 to 6).
    EndHeading(u8),
    StartCodeBlock,
    EndCodeBlock,
    Text(String),
    Other,
}

/// The event stream that pulldown-cmark produces for a document with its default options.
pub uninterp spec fn markdown_events(s: Seq<char>) -> Seq<MdEvent>;

/// Relies on `pulldown_cmark::Parser::new`: the events of `text`, in document
/// order, each mapped one for one to an `MdEvent`.
#[verifier::external_body]
pub(crate) fn parse_markdown(text: &str) -> (r: Vec<MdEvent>)
    ensures
        r@ == markdown_events(text@),
{
    Parser::new(text).map(|e| match e {
        Event::Start(Tag::BlockQuote(_)) => MdEvent::StartBlockQuote,
        Event::Start(Tag::Heading { level, .. }) => MdEvent::StartHeading(level as u8),
        Event::Start(Tag::CodeBlock(_)) => MdEvent::StartCodeBlock,
        Event::End(TagEnd::BlockQuote(_)) => MdEvent::EndBlockQuote,
        Event::End(TagEnd::Heading(level)) => MdEvent::EndHeading(level as u8),
        Event::End(TagEnd::CodeBlock) => MdEvent::EndCodeBlock,
        Event::Text(t) => MdEvent::Text(t.into_string()),
        _ => MdEvent::Other,
    }).collect()
}

/// The HTML that pulldown-cmark renders for a document with its default options.
pub uninterp spec fn html_of(s: Seq<char>) -> Seq<char>;

/// Relies on `pulldown_cmark::html::push_html` over `Parser::new(text)`: the
/// HTML rendering of `text`. Writing into a `String` cannot fail.
#[verifier::external_body]
pub(crate) fn markdown_to_html(text: &str) -> (r: String)
    ensures
        r@ == html_of(text@),
{
    let mut out = String::new();
    pulldown_cmark::html::push_html(&mut out, Parser::new(text));
    out
}

} // verus!
