use visen::{add_quote_seconds, build_script, script_from_events, MdEvent};

fn text(s: &str) -> MdEvent {
    MdEvent::Text(s.to_string())
}

#[test]
fn block_quote_with_duration_adds_its_seconds() {
    let script = build_script("> 5m\n".to_string());
    assert_eq!(script.blocked_seconds, 300);
}

#[test]
fn block_quote_without_duration_adds_nothing() {
    let script = build_script("> bogus text\n".to_string());
    assert_eq!(script.blocked_seconds, 0);
    assert_eq!(script.word_count, 2);
}

#[test]
fn block_quotes_add_up() {
    let script = build_script("> 1h 30s\n\nsome words\n\n> 2m\n".to_string());
    assert_eq!(script.blocked_seconds, 3750);
}

#[test]
fn code_block_dialogue_skips_cues() {
    let script = build_script("```\nJOHN Hello there\n```\n".to_string());
    assert_eq!(script.dialogue_word_count, 2);
    assert_eq!(script.word_count, 3);
}

#[test]
fn code_block_dialogue_counts_punctuated_cue() {
    let script = build_script("```\nJOHN: Hello there\n```\n".to_string());
    assert_eq!(script.dialogue_word_count, 3);
}

#[test]
fn end_to_end_document() {
    let doc = "# Title\n\n> 5m\n\n```\nHELLO world\n```\n";
    let script = build_script(doc.to_string());
    assert_eq!(script.title, "Title");
    assert_eq!(script.text, doc);
    assert_eq!(script.blocked_seconds, 300);
    assert_eq!(script.dialogue_word_count, 1);
    assert_eq!(script.word_count, 4);
}

#[test]
fn no_level_one_heading_gives_empty_title() {
    let script = build_script("## Act one\n\nSome prose.\n".to_string());
    assert_eq!(script.title, "");
    assert_eq!(script.word_count, 4);
}

#[test]
fn level_one_headings_concatenate() {
    let script = build_script("# Part\n\n# Two\n".to_string());
    assert_eq!(script.title, "PartTwo");
}

#[test]
fn prose_only_document() {
    let script = build_script("Just some prose here.\n".to_string());
    assert_eq!(script.blocked_seconds, 0);
    assert_eq!(script.dialogue_word_count, 0);
    assert_eq!(script.title, "");
    assert_eq!(script.word_count, 4);
}

#[test]
fn empty_document() {
    let script = build_script(String::new());
    assert_eq!(script.title, "");
    assert_eq!(script.word_count, 0);
    assert_eq!(script.dialogue_word_count, 0);
    assert_eq!(script.blocked_seconds, 0);
}

#[test]
fn events_without_quotes_headings_or_code() {
    let events = vec![MdEvent::Other, text("a b c"), MdEvent::StartHeading(2), text("d"),
        MdEvent::EndHeading(2), MdEvent::Other];
    let script = script_from_events("doc".to_string(), &events);
    assert_eq!(script.blocked_seconds, 0);
    assert_eq!(script.dialogue_word_count, 0);
    assert_eq!(script.title, "");
    assert_eq!(script.word_count, 4);
    assert_eq!(script.text, "doc");
}

#[test]
fn word_count_ignores_context() {
    let events = vec![
        MdEvent::StartHeading(1), text("My Play"), MdEvent::EndHeading(1),
        MdEvent::StartBlockQuote, text("10s"), MdEvent::EndBlockQuote,
        MdEvent::StartCodeBlock, text("BOB Hi you\n"), MdEvent::EndCodeBlock,
        text("x  y"),
    ];
    let script = script_from_events(String::new(), &events);
    assert_eq!(script.word_count, 2 + 1 + 3 + 2);
    assert_eq!(script.title, "My Play");
    assert_eq!(script.blocked_seconds, 10);
    assert_eq!(script.dialogue_word_count, 2);
}

#[test]
fn quote_text_is_joined_before_parsing() {
    let events = vec![MdEvent::StartBlockQuote, text("1m "), text("5s"), MdEvent::EndBlockQuote,
        MdEvent::StartBlockQuote, text("later"), MdEvent::EndBlockQuote];
    let script = script_from_events(String::new(), &events);
    assert_eq!(script.blocked_seconds, 65);
}

#[test]
fn overlapping_contexts_are_additive() {
    let events = vec![MdEvent::StartBlockQuote, MdEvent::StartCodeBlock, text("2m"),
        MdEvent::EndCodeBlock, MdEvent::EndBlockQuote];
    let script = script_from_events(String::new(), &events);
    assert_eq!(script.blocked_seconds, 120);
    assert_eq!(script.dialogue_word_count, 1);
}

#[test]
fn blocked_seconds_saturate() {
    let mut events = Vec::new();
    for _ in 0..6 {
        events.push(MdEvent::StartBlockQuote);
        events.push(text("99999999999y"));
        events.push(MdEvent::EndBlockQuote);
    }
    let script = script_from_events(String::new(), &events[..3].to_vec());
    assert_eq!(script.blocked_seconds, 99999999999 * 31557600);
    let script = script_from_events(String::new(), &events);
    assert_eq!(script.blocked_seconds, u64::MAX);
}

#[test]
fn overflowing_duration_is_not_read() {
    let script = build_script("> 18446744073709551615s 1000ms\n".to_string());
    assert_eq!(script.blocked_seconds, 0);
}

#[test]
fn duration_value_limit() {
    assert_eq!(build_script("> 100000000000s\n".to_string()).blocked_seconds, 100000000000);
    assert_eq!(build_script("> 12h 30m 15s 250ms 500us\n".to_string()).blocked_seconds, 45015);
    assert_eq!(
        build_script("> 584542046089y\n".to_string()).blocked_seconds,
        584542046089 * 31557600
    );
    assert_eq!(build_script("> 584542046090y\n".to_string()).blocked_seconds, 0);
    assert_eq!(build_script("> 1h 2m 3s 4ms\n".to_string()).blocked_seconds, 3723);
}

#[test]
fn empty_block_quote_adds_nothing() {
    let events = vec![MdEvent::StartBlockQuote, MdEvent::EndBlockQuote, MdEvent::EndBlockQuote];
    let script = script_from_events(String::new(), &events);
    assert_eq!(script.blocked_seconds, 0);
}

#[test]
fn parsed_quote_durations_add() {
    assert_eq!(add_quote_seconds(0, Some(300)), 300);
    assert_eq!(add_quote_seconds(300, None), 300);
    assert_eq!(add_quote_seconds(10, Some(5)), 15);
    assert_eq!(add_quote_seconds(u64::MAX - 1, Some(5)), u64::MAX);
}
