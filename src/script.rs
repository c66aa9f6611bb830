//! The screenplay interpreter: one forward pass over a document's events.
use vstd::prelude::*;

use crate::duration::{duration_seconds, is_readable_duration, parse_duration_seconds, readable_duration};
use crate::events::{markdown_events, parse_markdown, MdEvent};
use crate::words::{count_spoken_tokens, count_tokens, lemma_spoken_within, spoken_tokens, tokens};

verus! {

/// The metrics of a screenplay.
pub struct Script {
    /// The text of the level-1 headings, concatenated.
    pub title: String,
    /// The whole document, as it was given.
    pub text: String,
    /// Whitespace-delimited tokens over every text event.
    pub word_count: u64,
    /// Tokens inside code blocks that are not made of upper-case characters only.
    pub dialogue_word_count: u64,
    /// The sum of the durations written in block quotes.
    pub blocked_seconds: u64,
}

/// The state of the interpreter after some prefix of the events, with exact counts.
pub struct Tally {
    pub title: Seq<char>,
    pub quote: Seq<char>,
    pub words: nat,
    pub dialogue: nat,
    pub blocked: nat,
    pub in_quote: bool,
    pub in_h1: bool,
    pub in_code: bool,
}

pub open spec fn initial_tally() -> Tally {
    Tally {
        title: seq![],
        quote: seq![],
        words: 0,
        dialogue: 0,
        blocked: 0,
        in_quote: false,
        in_h1: false,
        in_code: false,
    }
}

/// The whole seconds of a parsed duration, or none where parsing failed.
pub open spec fn parsed_seconds(parsed: Option<u64>) -> nat {
    match parsed {
        Some(x) => x as nat,
        None => 0,
    }
}

/// The seconds that a block quote's text adds: its duration, or nothing where
/// it is empty or not a duration expression. A text whose numbers could
/// reach `u64::MAX` seconds is not read.
pub open spec fn quote_seconds(q: Seq<char>) -> nat {
    if q.len() == 0 || !readable_duration(q) {
        0
    } else {
        parsed_seconds(duration_seconds(q))
    }
}

/// Adds a block quote's parsed duration to the blocked time so far, at most
/// `u64::MAX`; a quote that did not parse adds nothing.
pub fn add_quote_seconds(blocked: u64, parsed: Option<u64>) -> (r: u64)
    ensures
        r == clamp(blocked as nat + parsed_seconds(parsed)),
{
    match parsed {
        Some(x) => blocked.saturating_add(x),
        None => blocked,
    }
}

/// What one event does to the state.
pub open spec fn step(t: Tally, e: MdEvent) -> Tally {
    match e {
        MdEvent::StartBlockQuote => Tally { in_quote: true, ..t },
        MdEvent::EndBlockQuote => Tally {
            blocked: t.blocked + quote_seconds(t.quote),
            quote: seq![],
            in_quote: false,
            ..t
        },
        MdEvent::StartHeading(level) => if level == 1 {
            Tally { in_h1: true, ..t }
        } else {
            t
        },
        MdEvent::EndHeading(level) => if level == 1 {
            Tally { in_h1: false, ..t }
        } else {
            t
        },
        MdEvent::StartCodeBlock => Tally { in_code: true, ..t },
        MdEvent::EndCodeBlock => Tally { in_code: false, ..t },
        MdEvent::Text(s) => Tally {
            words: t.words + tokens(s@).len(),
            quote: if t.in_quote {
                t.quote + s@
            } else {
                t.quote
            },
            title: if t.in_h1 {
                t.title + s@
            } else {
                t.title
            },
            dialogue: if t.in_code {
                t.dialogue + spoken_tokens(s@)
            } else {
                t.dialogue
            },
            ..t
        },
        MdEvent::Other => t,
    }
}

/// The state after all of `es`, in order.
pub open spec fn run(es: Seq<MdEvent>) -> Tally
    decreases es.len(),
{
    if es.len() == 0 {
        initial_tally()
    } else {
        step(run(es.drop_last()), es.last())
    }
}

/// The tokens of the event's text, or none for an event that holds no text.
pub open spec fn event_words(e: MdEvent) -> nat {
    match e {
        MdEvent::Text(s) => tokens(s@).len(),
        _ => 0,
    }
}

/// The tokens over every text event of `es`, whatever their context.
pub open spec fn total_words(es: Seq<MdEvent>) -> nat
    decreases es.len(),
{
    if es.len() == 0 {
        0
    } else {
        total_words(es.drop_last()) + event_words(es.last())
    }
}

/// `n`, or `u64::MAX` where `n` does not fit.
pub open spec fn clamp(n: nat) -> u64 {
    if n > u64::MAX {
        u64::MAX
    } else {
        n as u64
    }
}

/// The interpreter's word count is the token count of the text events.
pub proof fn lemma_word_count(es: Seq<MdEvent>)
    ensures
        run(es).words == total_words(es),
    decreases es.len(),
{
    if es.len() > 0 {
        lemma_word_count(es.drop_last());
    }
}

/// Dialogue words are counted among all words, so there are never more of them.
pub proof fn lemma_dialogue_within_words(es: Seq<MdEvent>)
    ensures
        run(es).dialogue <= run(es).words,
    decreases es.len(),
{
    if es.len() > 0 {
        lemma_dialogue_within_words(es.drop_last());
        if let MdEvent::Text(s) = es.last() {
            lemma_spoken_within(s@);
        }
    }
}

/// A document without block quotes has no blocked time.
pub proof fn lemma_no_block_quotes(es: Seq<MdEvent>)
    requires
        forall|i: int| 0 <= i < es.len() ==> !(#[trigger] es[i] is StartBlockQuote),
    ensures
        run(es).blocked == 0,
        run(es).quote.len() == 0,
        !run(es).in_quote,
    decreases es.len(),
{
    if es.len() > 0 {
        let p = es.drop_last();
        assert forall|i: int| 0 <= i < p.len() implies !(#[trigger] p[i] is StartBlockQuote) by {
            assert(p[i] == es[i]);
        }
        lemma_no_block_quotes(p);
        assert(es.last() == es[es.len() - 1]);
    }
}

/// A document without a level-1 heading has an empty title.
pub proof fn lemma_no_title(es: Seq<MdEvent>)
    requires
        forall|i: int| 0 <= i < es.len() ==> #[trigger] es[i] != MdEvent::StartHeading(1),
    ensures
        run(es).title == Seq::<char>::empty(),
        !run(es).in_h1,
    decreases es.len(),
{
    if es.len() > 0 {
        let p = es.drop_last();
        assert forall|i: int| 0 <= i < p.len() implies #[trigger] p[i] != MdEvent::StartHeading(
            1,
        ) by {
            assert(p[i] == es[i]);
        }
        lemma_no_title(p);
        assert(es.last() == es[es.len() - 1]);
    }
}

/// A document without code blocks has no dialogue.
pub proof fn lemma_no_code_blocks(es: Seq<MdEvent>)
    requires
        forall|i: int| 0 <= i < es.len() ==> !(#[trigger] es[i] is StartCodeBlock),
    ensures
        run(es).dialogue == 0,
        !run(es).in_code,
    decreases es.len(),
{
    if es.len() > 0 {
        let p = es.drop_last();
        assert forall|i: int| 0 <= i < p.len() implies !(#[trigger] p[i] is StartCodeBlock) by {
            assert(p[i] == es[i]);
        }
        lemma_no_code_blocks(p);
        assert(es.last() == es[es.len() - 1]);
    }
}

/// Computes the metrics of `text`, given its event stream `events`.
pub fn script_from_events(text: String, events: &Vec<MdEvent>) -> (r: Script)
    ensures
        r.text@ == text@,
        r.title@ == run(events@).title,
        r.word_count == clamp(run(events@).words),
        r.word_count == clamp(total_words(events@)),
        total_words(events@) <= u64::MAX ==> r.word_count == total_words(events@),
        r.dialogue_word_count == clamp(run(events@).dialogue),
        r.blocked_seconds == clamp(run(events@).blocked),
{
    let mut title = String::new();
    let mut quote = String::new();
    let mut word_count: u64 = 0;
    let mut dialogue_word_count: u64 = 0;
    let mut blocked_seconds: u64 = 0;
    let mut in_quote = false;
    let mut in_h1 = false;
    let mut in_code = false;
    let mut i: usize = 0;
    while i < events.len()
        invariant
            i <= events.len(),
            ({
                let t = run(events@.subrange(0, i as int));
                &&& title@ == t.title
                &&& quote@ == t.quote
                &&& word_count == clamp(t.words)
                &&& dialogue_word_count == clamp(t.dialogue)
                &&& blocked_seconds == clamp(t.blocked)
                &&& in_quote == t.in_quote
                &&& in_h1 == t.in_h1
                &&& in_code == t.in_code
            }),
        decreases events.len() - i,
    {
        assert(events@.subrange(0, i as int + 1).drop_last() == events@.subrange(0, i as int));
        match &events[i] {
            MdEvent::StartBlockQuote => {
                in_quote = true;
            },
            MdEvent::EndBlockQuote => {
                if is_readable_duration(quote.as_str()) {
                    let parsed = parse_duration_seconds(quote.as_str());
                    blocked_seconds = add_quote_seconds(blocked_seconds, parsed);
                }
                quote = String::new();
                in_quote = false;
            },
            MdEvent::StartHeading(level) => {
                if *level == 1 {
                    in_h1 = true;
                }
            },
            MdEvent::EndHeading(level) => {
                if *level == 1 {
                    in_h1 = false;
                }
            },
            MdEvent::StartCodeBlock => {
                in_code = true;
            },
            MdEvent::EndCodeBlock => {
                in_code = false;
            },
            MdEvent::Text(s) => {
                word_count = word_count.saturating_add(count_tokens(s.as_str()));
                if in_quote {
                    quote.append(s.as_str());
                }
                if in_h1 {
                    title.append(s.as_str());
                }
                if in_code {
                    dialogue_word_count = dialogue_word_count.saturating_add(
                        count_spoken_tokens(s.as_str()),
                    );
                }
            },
            MdEvent::Other => {},
        }
        i = i + 1;
    }
    assert(events@.subrange(0, events@.len() as int) == events@);
    proof {
        lemma_word_count(events@);
    }
    Script { title, text, word_count, dialogue_word_count, blocked_seconds }
}

/// Computes the metrics of the markdown document `text`.
pub fn build_script(text: String) -> (r: Script)
    ensures
        r.text@ == text@,
        r.title@ == run(markdown_events(text@)).title,
        r.word_count == clamp(total_words(markdown_events(text@))),
        total_words(markdown_events(text@)) <= u64::MAX ==> r.word_count == total_words(
            markdown_events(text@),
        ),
        r.dialogue_word_count == clamp(run(markdown_events(text@)).dialogue),
        r.blocked_seconds == clamp(run(markdown_events(text@)).blocked),
{
    let events = parse_markdown(text.as_str());
    script_from_events(text, &events)
}

} // verus!
