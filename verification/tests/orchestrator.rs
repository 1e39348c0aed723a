use ragents::aggregator::response_chunk;
use ragents::dispatch::ProcessOutcome;
use ragents::message::{Message, MessageRole};
use ragents::orchestrator::{Action, Event, Orchestrator, Phase};
use ragents::registry::{ToolRegistry, ToolSpec};
use ragents::stream::{ChoiceDelta, Chunk, CompletedToolCall, FinishReason, ToolCallFragment};

fn registry() -> ToolRegistry {
    let mut registry = ToolRegistry::new();
    registry.register(ToolSpec {
        name: "get_weather".to_string(),
        schema: "{\"type\":\"function\",\"function\":{\"name\":\"get_weather\"}}".to_string(),
        executable: "get_weather".to_string(),
        embedding_model: None,
    });
    registry
}

fn content(text: &str, finish_reason: Option<FinishReason>) -> Event {
    Event::Chunk(Chunk {
        choices: vec![ChoiceDelta {
            index: 0,
            content: Some(text.to_string()),
            tool_calls: vec![],
            finish_reason,
        }],
    })
}

fn fragment(id: Option<&str>, name: Option<&str>, args: &str, finish_reason: Option<FinishReason>) -> Event {
    Event::Chunk(Chunk {
        choices: vec![ChoiceDelta {
            index: 0,
            content: None,
            tool_calls: vec![ToolCallFragment {
                index: 0,
                id: id.map(|s| s.to_string()),
                name: name.map(|s| s.to_string()),
                arguments: Some(args.to_string()),
            }],
            finish_reason,
        }],
    })
}

fn start(input: &str) -> Event {
    Event::Start {
        input: input.to_string(),
        messages: vec![Message::user(input)],
        max_tokens: None,
    }
}

fn commits(actions: &[Action]) -> Vec<(String, String)> {
    actions
        .iter()
        .filter_map(|a| match a {
            Action::Commit { input, output } => Some((input.clone(), output.clone())),
            _ => None,
        })
        .collect()
}

fn emitted(actions: &[Action]) -> Vec<String> {
    actions
        .iter()
        .filter_map(|a| match a {
            Action::Emit(text) => Some(text.clone()),
            _ => None,
        })
        .collect()
}

#[test]
fn weather_turn_runs_the_tool_and_commits_the_final_answer() {
    let input = "What's the weather in Paris?";
    let mut orchestrator = Orchestrator::new(registry());
    assert_eq!(orchestrator.phase(), Phase::Idle);
    let mut all: Vec<Action> = Vec::new();

    let actions = orchestrator.step(start(input));
    assert_eq!(actions.len(), 1);
    match &actions[0] {
        Action::OpenStream(request) => {
            assert_eq!(request.messages.len(), 1);
            assert_eq!(request.messages[0].content, input);
            assert_eq!(request.tools.len(), 1);
            assert!(request.tool_choice_auto);
        }
        other => panic!("unexpected {:?}", other),
    }
    assert_eq!(orchestrator.phase(), Phase::AwaitingFirstStream);
    all.extend(actions);

    let actions = orchestrator.step(content("", None));
    assert_eq!(emitted(&actions), vec!["".to_string()]);
    all.extend(actions);

    all.extend(orchestrator.step(fragment(Some("call_1"), Some("get_weather"), "", None)));
    all.extend(orchestrator.step(fragment(None, None, "{\"loc", None)));
    all.extend(orchestrator.step(fragment(None, None, "ation\":", None)));
    let actions = orchestrator.step(fragment(None, None, "\"Paris\"}", Some(FinishReason::ToolCalls)));
    assert_eq!(actions.len(), 1);
    match &actions[0] {
        Action::RunTool { index, executable, arguments } => {
            assert_eq!(*index, 0);
            assert_eq!(executable, "get_weather");
            assert_eq!(arguments, "{\"location\":\"Paris\"}");
        }
        other => panic!("unexpected {:?}", other),
    }
    assert_eq!(orchestrator.phase(), Phase::ToolDispatch);
    assert_eq!(orchestrator.completed_calls().len(), 1);
    assert_eq!(orchestrator.completed_calls()[0].id, "call_1");
    all.extend(actions);

    let actions = orchestrator.step(Event::ToolFinished {
        index: 0,
        outcome: ProcessOutcome::Exited {
            code: Some(0),
            stdout: b"{\"location\":\"Paris\",\"temperature\":\"24\",\"forecast\":\"sunny\"}".to_vec(),
        },
    });
    assert_eq!(actions.len(), 1);
    match &actions[0] {
        Action::OpenStream(request) => {
            assert!(request.tools.is_empty());
            assert!(!request.tool_choice_auto);
            assert_eq!(request.messages.len(), 3);
            assert_eq!(request.messages[0].content, input);
            assert_eq!(request.messages[1].role, MessageRole::Assistant);
            assert_eq!(request.messages[1].tool_call_refs, vec!["call_1".to_string()]);
            assert_eq!(request.messages[2].role, MessageRole::Tool);
            assert_eq!(request.messages[2].tool_call_id, Some("call_1".to_string()));
            let sent: serde_json::Value = serde_json::from_str(&request.messages[2].content).unwrap();
            let expected: serde_json::Value = serde_json::from_str(
                "{\"location\":\"Paris\",\"temperature\":\"24\",\"forecast\":\"sunny\"}",
            )
            .unwrap();
            assert_eq!(sent, expected);
        }
        other => panic!("unexpected {:?}", other),
    }
    assert_eq!(orchestrator.phase(), Phase::AwaitingSecondStream);
    all.extend(actions);

    let actions = orchestrator.step(content("It's sunny and 24° in Paris.", None));
    assert_eq!(emitted(&actions), vec!["It's sunny and 24° in Paris.".to_string()]);
    all.extend(actions);
    let actions = orchestrator.step(Event::StreamEnd);
    assert_eq!(orchestrator.phase(), Phase::Committed);
    all.extend(actions);

    assert_eq!(
        commits(&all),
        vec![(input.to_string(), "It's sunny and 24° in Paris.".to_string())]
    );
}

#[test]
fn transport_error_in_the_first_stream_commits_nothing() {
    let mut orchestrator = Orchestrator::new(registry());
    let mut all: Vec<Action> = Vec::new();
    all.extend(orchestrator.step(start("hello")));
    all.extend(orchestrator.step(content("par", None)));
    let actions = orchestrator.step(Event::StreamError("connection reset".to_string()));
    assert_eq!(actions.len(), 1);
    assert!(matches!(&actions[0], Action::Fail(reason) if reason == "connection reset"));
    all.extend(actions);
    assert_eq!(orchestrator.phase(), Phase::Idle);
    assert!(commits(&all).is_empty());
    all.extend(orchestrator.step(Event::StreamEnd));
    all.extend(orchestrator.step(content("late", Some(FinishReason::Stop))));
    assert!(commits(&all).is_empty());
}

#[test]
fn transport_error_in_the_second_stream_commits_nothing() {
    let mut orchestrator = Orchestrator::new(registry());
    let mut all: Vec<Action> = Vec::new();
    all.extend(orchestrator.step(start("hello")));
    all.extend(orchestrator.step(fragment(Some("c"), Some("get_weather"), "{}", Some(FinishReason::ToolCalls))));
    all.extend(orchestrator.step(Event::ToolFinished { index: 0, outcome: ProcessOutcome::SpawnFailed }));
    assert_eq!(orchestrator.phase(), Phase::AwaitingSecondStream);
    all.extend(orchestrator.step(content("half", None)));
    all.extend(orchestrator.step(Event::StreamError("boom".to_string())));
    assert_eq!(orchestrator.phase(), Phase::Idle);
    assert!(commits(&all).is_empty());
    assert!(matches!(all.last(), Some(Action::Fail(reason)) if reason == "boom"));
}

#[test]
fn turn_without_tool_calls_commits_once_with_all_content() {
    let mut orchestrator = Orchestrator::new(registry());
    let mut all: Vec<Action> = Vec::new();
    all.extend(orchestrator.step(start("hi")));
    all.extend(orchestrator.step(content("Hel", None)));
    all.extend(orchestrator.step(content("lo", None)));
    all.extend(orchestrator.step(content("!", Some(FinishReason::Stop))));
    assert_eq!(orchestrator.phase(), Phase::Committed);
    all.extend(orchestrator.step(Event::StreamEnd));
    assert_eq!(commits(&all), vec![("hi".to_string(), "Hello!".to_string())]);
    assert_eq!(emitted(&all), vec!["Hel".to_string(), "lo".to_string(), "!".to_string()]);
    assert!(all.iter().all(|a| !matches!(a, Action::RunTool { .. })));
}

#[test]
fn stream_end_without_finish_reason_commits_what_came() {
    let mut orchestrator = Orchestrator::new(registry());
    let mut all: Vec<Action> = Vec::new();
    all.extend(orchestrator.step(start("hi")));
    all.extend(orchestrator.step(content("partial", None)));
    all.extend(orchestrator.step(Event::StreamEnd));
    assert_eq!(commits(&all), vec![("hi".to_string(), "partial".to_string())]);
    assert_eq!(orchestrator.answer(), "partial");
}

#[test]
fn unresolved_calls_start_nothing_and_continue_at_once() {
    let mut orchestrator = Orchestrator::new(registry());
    orchestrator.step(start("news?"));
    let actions = orchestrator.step(fragment(Some("c1"), Some("get_news"), "{}", Some(FinishReason::ToolCalls)));
    assert_eq!(actions.len(), 1);
    match &actions[0] {
        Action::OpenStream(request) => {
            assert_eq!(request.messages.len(), 2);
            assert_eq!(request.messages[1].role, MessageRole::Assistant);
            assert_eq!(request.messages[1].tool_call_refs, vec!["c1".to_string()]);
            assert!(request.messages.iter().all(|m| m.role != MessageRole::Tool));
            assert!(request.tools.is_empty());
        }
        other => panic!("unexpected {:?}", other),
    }
    assert_eq!(orchestrator.phase(), Phase::AwaitingSecondStream);
}

#[test]
fn join_waits_for_every_tool() {
    let mut registry = registry();
    registry.register(ToolSpec {
        name: "get_time".to_string(),
        schema: "{}".to_string(),
        executable: "/bin/time".to_string(),
        embedding_model: None,
    });
    let mut orchestrator = Orchestrator::new(registry);
    orchestrator.step(start("both"));
    let actions = orchestrator.step(Event::Chunk(Chunk {
        choices: vec![ChoiceDelta {
            index: 0,
            content: None,
            tool_calls: vec![
                ToolCallFragment { index: 0, id: Some("a".into()), name: Some("get_weather".into()), arguments: Some("{}".into()) },
                ToolCallFragment { index: 1, id: Some("b".into()), name: Some("get_time".into()), arguments: Some("{}".into()) },
            ],
            finish_reason: Some(FinishReason::ToolCalls),
        }],
    }));
    assert_eq!(actions.len(), 2);
    assert!(matches!(&actions[0], Action::RunTool { index: 0, executable, .. } if executable == "get_weather"));
    assert!(matches!(&actions[1], Action::RunTool { index: 1, executable, .. } if executable == "/bin/time"));
    let actions = orchestrator.step(Event::ToolFinished {
        index: 1,
        outcome: ProcessOutcome::Exited { code: Some(0), stdout: b"\"noon\"".to_vec() },
    });
    assert!(actions.is_empty());
    assert_eq!(orchestrator.phase(), Phase::ToolDispatch);
    let actions = orchestrator.step(Event::ToolFinished {
        index: 1,
        outcome: ProcessOutcome::Exited { code: Some(0), stdout: b"\"again\"".to_vec() },
    });
    assert!(actions.is_empty());
    let actions = orchestrator.step(Event::ToolFinished {
        index: 0,
        outcome: ProcessOutcome::Exited { code: Some(0), stdout: b"\"rain\"".to_vec() },
    });
    assert_eq!(actions.len(), 1);
    match &actions[0] {
        Action::OpenStream(request) => {
            assert_eq!(request.messages.len(), 4);
            assert_eq!(request.messages[2].tool_call_id, Some("b".to_string()));
            assert_eq!(request.messages[2].content, "\"noon\"");
            assert_eq!(request.messages[3].tool_call_id, Some("a".to_string()));
            assert_eq!(request.messages[3].content, "\"rain\"");
        }
        other => panic!("unexpected {:?}", other),
    }
}

#[test]
fn events_out_of_phase_change_nothing() {
    let mut orchestrator = Orchestrator::new(registry());
    assert!(orchestrator.step(Event::StreamEnd).is_empty());
    assert!(orchestrator.step(content("x", None)).is_empty());
    assert!(orchestrator.step(Event::StreamError("e".to_string())).is_empty());
    assert!(orchestrator
        .step(Event::ToolFinished { index: 0, outcome: ProcessOutcome::SpawnFailed })
        .is_empty());
    assert_eq!(orchestrator.phase(), Phase::Idle);
    assert!(orchestrator.step(start("")).is_empty());
    assert_eq!(orchestrator.phase(), Phase::Idle);
    orchestrator.step(start("go"));
    assert!(orchestrator.step(start("again")).is_empty());
    assert_eq!(orchestrator.phase(), Phase::AwaitingFirstStream);
}

#[test]
fn a_new_turn_can_start_after_a_commit() {
    let mut orchestrator = Orchestrator::new(registry());
    orchestrator.step(start("one"));
    orchestrator.step(content("1", Some(FinishReason::Stop)));
    assert_eq!(orchestrator.phase(), Phase::Committed);
    let actions = orchestrator.step(start("two"));
    assert_eq!(actions.len(), 1);
    orchestrator.step(content("2", None));
    let actions = orchestrator.step(Event::StreamEnd);
    assert_eq!(commits(&actions), vec![("two".to_string(), "2".to_string())]);
}

#[test]
fn max_tokens_is_carried_to_both_requests() {
    let mut orchestrator = Orchestrator::new(registry());
    let actions = orchestrator.step(Event::Start {
        input: "q".to_string(),
        messages: vec![Message::user("q")],
        max_tokens: Some(512),
    });
    assert!(matches!(&actions[0], Action::OpenStream(r) if r.max_tokens == Some(512)));
    let actions = orchestrator.step(fragment(Some("c"), Some("nope"), "{}", Some(FinishReason::ToolCalls)));
    assert!(matches!(&actions[0], Action::OpenStream(r) if r.max_tokens == Some(512)));
}

#[test]
fn complete_response_with_tool_calls_takes_the_tool_path() {
    let mut orchestrator = Orchestrator::new(registry());
    orchestrator.step(start("weather"));
    let chunk = response_chunk(
        None,
        Some(vec![CompletedToolCall {
            id: "c1".to_string(),
            function_name: "get_weather".to_string(),
            arguments: "{\"location\":\"Rome\"}".to_string(),
        }]),
    );
    let actions = orchestrator.step(Event::Chunk(chunk));
    assert_eq!(actions.len(), 1);
    assert!(matches!(&actions[0], Action::RunTool { index: 0, arguments, .. } if arguments == "{\"location\":\"Rome\"}"));
    assert_eq!(orchestrator.completed_calls()[0].id, "c1");
}

#[test]
fn complete_response_without_tool_calls_commits_its_content() {
    let mut orchestrator = Orchestrator::new(registry());
    orchestrator.step(start("hi"));
    let actions = orchestrator.step(Event::Chunk(response_chunk(Some("hello".to_string()), None)));
    assert_eq!(emitted(&actions), vec!["hello".to_string()]);
    assert_eq!(commits(&actions), vec![("hi".to_string(), "hello".to_string())]);
    let chunk = response_chunk(None, Some(vec![]));
    assert_eq!(chunk.choices.len(), 1);
    assert_eq!(chunk.choices[0].finish_reason, Some(FinishReason::ToolCalls));
    assert!(chunk.choices[0].tool_calls.is_empty());
}

#[test]
fn second_stream_cannot_ask_for_tools_again() {
    let mut orchestrator = Orchestrator::new(registry());
    orchestrator.step(start("q"));
    orchestrator.step(fragment(Some("c"), Some("nope"), "{}", Some(FinishReason::ToolCalls)));
    orchestrator.step(content("answer", None));
    let actions = orchestrator.step(fragment(Some("d"), Some("get_weather"), "{}", Some(FinishReason::ToolCalls)));
    assert_eq!(commits(&actions), vec![("q".to_string(), "answer".to_string())]);
    assert!(actions.iter().all(|a| !matches!(a, Action::RunTool { .. })));
    assert_eq!(orchestrator.phase(), Phase::Committed);
}

#[test]
fn cancel_gives_the_turn_up_without_commit() {
    let mut orchestrator = Orchestrator::new(registry());
    assert!(orchestrator.step(Event::Cancel).is_empty());
    let mut all: Vec<Action> = Vec::new();
    all.extend(orchestrator.step(start("q")));
    all.extend(orchestrator.step(content("half", None)));
    let actions = orchestrator.step(Event::Cancel);
    assert_eq!(actions.len(), 1);
    assert!(matches!(&actions[0], Action::Abandon));
    assert_eq!(orchestrator.phase(), Phase::Idle);
    all.extend(actions);
    all.extend(orchestrator.step(Event::StreamEnd));
    assert!(commits(&all).is_empty());

    orchestrator.step(start("q"));
    orchestrator.step(fragment(Some("c"), Some("get_weather"), "{}", Some(FinishReason::ToolCalls)));
    assert_eq!(orchestrator.phase(), Phase::ToolDispatch);
    let actions = orchestrator.step(Event::Cancel);
    assert!(matches!(&actions[0], Action::Abandon));
    assert_eq!(orchestrator.phase(), Phase::Idle);
    assert!(orchestrator
        .step(Event::ToolFinished { index: 0, outcome: ProcessOutcome::TimedOut })
        .is_empty());

    orchestrator.step(start("q"));
    orchestrator.step(content("done", Some(FinishReason::Stop)));
    assert_eq!(orchestrator.phase(), Phase::Committed);
    assert!(orchestrator.step(Event::Cancel).is_empty());
    assert_eq!(orchestrator.phase(), Phase::Committed);
}

#[test]
fn timed_out_tool_gives_the_default_empty_value() {
    let mut orchestrator = Orchestrator::new(registry());
    orchestrator.step(start("q"));
    orchestrator.step(fragment(Some("c"), Some("get_weather"), "{}", Some(FinishReason::ToolCalls)));
    let actions = orchestrator.step(Event::ToolFinished { index: 0, outcome: ProcessOutcome::TimedOut });
    match &actions[0] {
        Action::OpenStream(request) => {
            assert_eq!(request.messages[2].tool_call_id, Some("c".to_string()));
            assert_eq!(request.messages[2].content, "null");
        }
        other => panic!("unexpected {:?}", other),
    }
}
