use ragents::aggregator::StreamAggregator;
use ragents::stream::{ChoiceDelta, Chunk, FinishReason, ToolCallFragment, TurnEvent};

fn fragment(index: u32, id: Option<&str>, name: Option<&str>, args: Option<&str>) -> ToolCallFragment {
    ToolCallFragment {
        index,
        id: id.map(|s| s.to_string()),
        name: name.map(|s| s.to_string()),
        arguments: args.map(|s| s.to_string()),
    }
}

fn chunk(
    content: Option<&str>,
    tool_calls: Vec<ToolCallFragment>,
    finish_reason: Option<FinishReason>,
) -> Chunk {
    Chunk {
        choices: vec![ChoiceDelta {
            index: 0,
            content: content.map(|s| s.to_string()),
            tool_calls,
            finish_reason,
        }],
    }
}

#[test]
fn argument_buffer_is_the_concatenation_of_the_fragments() {
    let mut aggregator = StreamAggregator::new();
    let pieces = ["{\"loc", "ation\":", "\"Paris\"}"];
    let first = aggregator.consume(&chunk(
        None,
        vec![fragment(0, Some("call_1"), Some("get_weather"), Some(""))],
        None,
    ));
    assert!(first.is_empty());
    for piece in pieces {
        let events = aggregator.consume(&chunk(None, vec![fragment(0, None, None, Some(piece))], None));
        assert!(events.is_empty());
    }
    let table = aggregator.pending();
    assert_eq!(table.len(), 1);
    assert_eq!(table[0].choice_index, 0);
    assert_eq!(table[0].call_index, 0);
    assert_eq!(table[0].id, "call_1");
    assert_eq!(table[0].function_name, "get_weather");
    assert_eq!(table[0].argument_buffer, "{\"location\":\"Paris\"}");
}

#[test]
fn first_fragment_arguments_are_taken_once() {
    let mut aggregator = StreamAggregator::new();
    aggregator.consume(&chunk(None, vec![fragment(0, Some("a"), Some("f"), Some("{\"x\":"))], None));
    aggregator.consume(&chunk(None, vec![fragment(0, None, None, Some("1}"))], None));
    assert_eq!(aggregator.pending()[0].argument_buffer, "{\"x\":1}");
}

#[test]
fn fragments_of_one_chunk_and_of_many_give_the_same_buffer() {
    let mut one = StreamAggregator::new();
    one.consume(&chunk(
        None,
        vec![
            fragment(0, Some("a"), Some("f"), Some("ab")),
            fragment(0, None, None, Some("cd")),
            fragment(0, None, None, Some("ef")),
        ],
        None,
    ));
    let mut many = StreamAggregator::new();
    many.consume(&chunk(None, vec![fragment(0, Some("a"), Some("f"), Some("ab"))], None));
    many.consume(&chunk(None, vec![fragment(0, None, None, Some("cd"))], None));
    many.consume(&chunk(None, vec![fragment(0, None, None, Some("ef"))], None));
    assert_eq!(one.pending()[0].argument_buffer, "abcdef");
    assert_eq!(many.pending()[0].argument_buffer, "abcdef");
}

#[test]
fn calls_are_keyed_by_choice_and_index() {
    let mut aggregator = StreamAggregator::new();
    let both = Chunk {
        choices: vec![
            ChoiceDelta {
                index: 0,
                content: None,
                tool_calls: vec![
                    fragment(0, Some("a"), Some("f"), Some("1")),
                    fragment(1, Some("b"), Some("g"), Some("2")),
                ],
                finish_reason: None,
            },
            ChoiceDelta {
                index: 1,
                content: None,
                tool_calls: vec![fragment(0, Some("c"), Some("h"), Some("3"))],
                finish_reason: None,
            },
        ],
    };
    aggregator.consume(&both);
    aggregator.consume(&chunk(None, vec![fragment(1, None, None, Some("x")), fragment(0, None, None, Some("y"))], None));
    let table = aggregator.pending();
    assert_eq!(table.len(), 3);
    assert_eq!((table[0].choice_index, table[0].call_index), (0, 0));
    assert_eq!(table[0].argument_buffer, "1y");
    assert_eq!((table[1].choice_index, table[1].call_index), (0, 1));
    assert_eq!(table[1].argument_buffer, "2x");
    assert_eq!((table[2].choice_index, table[2].call_index), (1, 0));
    assert_eq!(table[2].argument_buffer, "3");
}

#[test]
fn empty_id_is_filled_in_later() {
    let mut aggregator = StreamAggregator::new();
    aggregator.consume(&chunk(None, vec![fragment(0, None, Some("f"), None)], None));
    assert_eq!(aggregator.pending()[0].id, "");
    aggregator.consume(&chunk(None, vec![fragment(0, Some("late"), None, Some("{}"))], None));
    assert_eq!(aggregator.pending()[0].id, "late");
    aggregator.consume(&chunk(None, vec![fragment(0, Some("other"), Some("g"), None)], None));
    assert_eq!(aggregator.pending()[0].id, "late");
    assert_eq!(aggregator.pending()[0].function_name, "f");
    assert_eq!(aggregator.pending()[0].argument_buffer, "{}");
}

#[test]
fn content_is_reported_at_once_and_accumulated() {
    let mut aggregator = StreamAggregator::new();
    let events = aggregator.consume(&chunk(Some("Hel"), vec![], None));
    assert_eq!(events.len(), 1);
    assert!(matches!(&events[0], TurnEvent::ContentDelta(t) if t == "Hel"));
    let events = aggregator.consume(&chunk(Some("lo"), vec![], Some(FinishReason::Stop)));
    assert_eq!(events.len(), 2);
    assert!(matches!(&events[0], TurnEvent::ContentDelta(t) if t == "lo"));
    assert!(matches!(&events[1], TurnEvent::Done(t) if t == "Hello"));
    assert_eq!(aggregator.answer(), "Hello");
}

#[test]
fn empty_content_is_still_a_delta() {
    let mut aggregator = StreamAggregator::new();
    let events = aggregator.consume(&chunk(Some(""), vec![], None));
    assert_eq!(events.len(), 1);
    assert!(matches!(&events[0], TurnEvent::ContentDelta(t) if t.is_empty()));
}

#[test]
fn tool_calls_finish_gives_the_snapshot_in_first_seen_order() {
    let mut aggregator = StreamAggregator::new();
    aggregator.consume(&chunk(None, vec![fragment(1, Some("b"), Some("g"), Some("{"))], None));
    aggregator.consume(&chunk(None, vec![fragment(0, Some("a"), Some("f"), Some("[]"))], None));
    let events = aggregator.consume(&chunk(
        None,
        vec![fragment(1, None, None, Some("}"))],
        Some(FinishReason::ToolCalls),
    ));
    assert_eq!(events.len(), 1);
    match &events[0] {
        TurnEvent::ToolCallsReady(calls) => {
            assert_eq!(calls.len(), 2);
            assert_eq!(calls[0].id, "b");
            assert_eq!(calls[0].function_name, "g");
            assert_eq!(calls[0].arguments, "{}");
            assert_eq!(calls[1].id, "a");
            assert_eq!(calls[1].arguments, "[]");
        }
        _ => panic!("expected ToolCallsReady"),
    }
    let calls = aggregator.completed_calls();
    assert_eq!(calls.len(), 2);
}

#[test]
fn every_ordinary_finish_reason_is_done() {
    for reason in [
        FinishReason::Stop,
        FinishReason::Length,
        FinishReason::ContentFilter,
        FinishReason::FunctionCall,
    ] {
        let mut aggregator = StreamAggregator::new();
        aggregator.consume(&chunk(Some("a"), vec![], None));
        let events = aggregator.consume(&chunk(None, vec![], Some(reason)));
        assert_eq!(events.len(), 1);
        assert!(matches!(&events[0], TurnEvent::Done(t) if t == "a"));
    }
}

#[test]
fn stream_end_without_signal_is_done_with_what_came() {
    let mut aggregator = StreamAggregator::new();
    aggregator.consume(&chunk(Some("partial"), vec![], None));
    assert!(matches!(aggregator.finish(), TurnEvent::Done(t) if t == "partial"));
    let fresh = StreamAggregator::new();
    assert!(matches!(fresh.finish(), TurnEvent::Done(t) if t.is_empty()));
}

#[test]
fn chunk_without_choices_changes_nothing() {
    let mut aggregator = StreamAggregator::new();
    let events = aggregator.consume(&Chunk { choices: vec![] });
    assert!(events.is_empty());
    assert!(aggregator.pending().is_empty());
    assert_eq!(aggregator.answer(), "");
}
