use ragents::continuation::build;
use ragents::dispatch::{
    collect, judge, plan, read_output, tool_result, Invocation, ProcessOutcome, ResultBoard,
    ToolFailure, ToolOutput,
};
use ragents::message::{Message, MessageRole};
use ragents::registry::{Exec, ToolRegistry, ToolSpec};
use ragents::stream::CompletedToolCall;

fn spec(name: &str, executable: &str) -> ToolSpec {
    ToolSpec {
        name: name.to_string(),
        schema: format!("{{\"name\":\"{}\"}}", name),
        executable: executable.to_string(),
        embedding_model: None,
    }
}

fn call(id: &str, name: &str, arguments: &str) -> CompletedToolCall {
    CompletedToolCall {
        id: id.to_string(),
        function_name: name.to_string(),
        arguments: arguments.to_string(),
    }
}

fn registry() -> ToolRegistry {
    let mut registry = ToolRegistry::new();
    assert!(registry.register(spec("get_weather", "/bin/weather")));
    assert!(registry.register(spec("get_time", "/bin/time")));
    registry
}

fn exited(code: i32, stdout: &str) -> ProcessOutcome {
    ProcessOutcome::Exited { code: Some(code), stdout: stdout.as_bytes().to_vec() }
}

fn invocation(id: &str) -> Invocation {
    Invocation {
        call: call(id, "get_weather", "{}"),
        executable: "/bin/weather".to_string(),
        arguments_valid: true,
    }
}

fn json(text: &str) -> serde_json::Value {
    serde_json::from_str(text).unwrap()
}

#[test]
fn registry_resolves_registered_names_only() {
    let registry = registry();
    assert_eq!(registry.len(), 2);
    assert_eq!(registry.resolve("get_weather").unwrap().executable, "/bin/weather");
    assert_eq!(registry.resolve("get_time").unwrap().executable, "/bin/time");
    assert!(registry.resolve("get_news").is_none());
    assert!(registry.resolve("").is_none());
}

#[test]
fn registry_refuses_a_second_tool_of_one_name() {
    let mut registry = registry();
    assert!(!registry.register(spec("get_weather", "/bin/other")));
    assert_eq!(registry.len(), 2);
    assert_eq!(registry.resolve("get_weather").unwrap().executable, "/bin/weather");
}

#[test]
fn registry_lists_schemas_in_registration_order() {
    let registry = registry();
    assert_eq!(
        registry.schemas(),
        vec!["{\"name\":\"get_weather\"}".to_string(), "{\"name\":\"get_time\"}".to_string()]
    );
    assert!(ToolRegistry::new().schemas().is_empty());
}

#[test]
fn exec_finds_the_last_command_of_a_name() {
    let exec = Exec::init(vec![
        ("a".to_string(), "/bin/a".to_string()),
        ("b".to_string(), "/bin/b".to_string()),
        ("a".to_string(), "/bin/a2".to_string()),
    ]);
    assert_eq!(exec.find_exec("a"), Some("/bin/a2".to_string()));
    assert_eq!(exec.find_exec("b"), Some("/bin/b".to_string()));
    assert_eq!(exec.find_exec("c"), None);
    assert_eq!(Exec::init(vec![]).find_exec("a"), None);
}

#[test]
fn plan_holds_one_invocation_per_resolved_call() {
    let calls = vec![
        call("1", "get_weather", "{\"location\":\"Paris\"}"),
        call("2", "get_news", "{}"),
        call("3", "get_time", "[]"),
        call("4", "get_weather", "{}"),
    ];
    let invocations = plan(&calls, &registry());
    assert_eq!(invocations.len(), 3);
    assert_eq!(invocations[0].call.id, "1");
    assert_eq!(invocations[0].executable, "/bin/weather");
    assert_eq!(invocations[0].call.arguments, "{\"location\":\"Paris\"}");
    assert!(invocations[0].arguments_valid);
    assert_eq!(invocations[1].call.id, "3");
    assert_eq!(invocations[1].executable, "/bin/time");
    assert_eq!(invocations[2].call.id, "4");
}

#[test]
fn plan_of_unresolved_calls_is_empty() {
    let calls = vec![call("1", "a", "{}"), call("2", "b", "{}")];
    assert!(plan(&calls, &registry()).is_empty());
    assert!(plan(&vec![], &registry()).is_empty());
    assert!(plan(&calls, &ToolRegistry::new()).is_empty());
}

#[test]
fn plan_marks_arguments_that_are_not_json() {
    let calls = vec![
        call("1", "get_weather", "{\"location\":"),
        call("2", "get_weather", ""),
        call("3", "get_weather", "{\"a\":1} trailing"),
        call("4", "get_weather", "42"),
    ];
    let invocations = plan(&calls, &registry());
    assert_eq!(invocations.len(), 4);
    assert!(!invocations[0].arguments_valid);
    assert!(!invocations[1].arguments_valid);
    assert!(!invocations[2].arguments_valid);
    assert!(invocations[3].arguments_valid);
}

#[test]
fn read_output_parses_json_of_a_clean_exit() {
    match read_output(&exited(0, "{\"a\": [1, 2]}")) {
        ToolOutput::Json(value) => assert_eq!(value, json("{\"a\":[1,2]}")),
        other => panic!("unexpected {:?}", other),
    }
    match read_output(&exited(0, "  [ ]\n")) {
        ToolOutput::Json(value) => assert_eq!(value, json("[]")),
        other => panic!("unexpected {:?}", other),
    }
}

#[test]
fn read_output_names_each_failure() {
    assert!(matches!(
        read_output(&ProcessOutcome::SpawnFailed),
        ToolOutput::Unusable(ToolFailure::SpawnFailed)
    ));
    assert!(matches!(
        read_output(&ProcessOutcome::TimedOut),
        ToolOutput::Unusable(ToolFailure::TimedOut)
    ));
    assert!(matches!(
        read_output(&exited(1, "{}")),
        ToolOutput::Unusable(ToolFailure::NonZeroExit)
    ));
    assert!(matches!(
        read_output(&ProcessOutcome::Exited { code: None, stdout: b"{}".to_vec() }),
        ToolOutput::Unusable(ToolFailure::NonZeroExit)
    ));
    assert!(matches!(
        read_output(&ProcessOutcome::Exited { code: Some(0), stdout: vec![0xff, 0xfe] }),
        ToolOutput::Unusable(ToolFailure::InvalidUtf8)
    ));
    assert!(matches!(
        read_output(&exited(0, "not json")),
        ToolOutput::Unusable(ToolFailure::InvalidJson)
    ));
    assert!(matches!(
        read_output(&exited(0, "")),
        ToolOutput::Unusable(ToolFailure::InvalidJson)
    ));
    assert!(matches!(
        read_output(&exited(0, "{} {}")),
        ToolOutput::Unusable(ToolFailure::InvalidJson)
    ));
}

#[test]
fn failed_tool_gives_the_default_empty_value() {
    for outcome in [
        ProcessOutcome::SpawnFailed,
        ProcessOutcome::TimedOut,
        exited(2, "{\"ok\":true}"),
        exited(0, "oops"),
        ProcessOutcome::Exited { code: Some(0), stdout: vec![0x80] },
    ] {
        let result = tool_result(&invocation("call_9"), &outcome);
        assert_eq!(result.tool_call_id, "call_9");
        assert_eq!(result.value, serde_json::Value::Null);
        assert_eq!(result.value.to_string(), "null");
        assert!(result.failure.is_some());
    }
}

#[test]
fn successful_tool_gives_its_value() {
    let result = tool_result(&invocation("call_1"), &exited(0, "{\"temperature\":\"24\"}"));
    assert_eq!(result.tool_call_id, "call_1");
    assert_eq!(result.value, json("{\"temperature\":\"24\"}"));
    assert_eq!(result.failure, None);
}

#[test]
fn corrupt_arguments_are_reported_whatever_the_process_did() {
    let mut broken = invocation("call_1");
    broken.arguments_valid = false;
    let result = tool_result(&broken, &exited(0, "{\"ok\":true}"));
    assert_eq!(result.failure, Some(ToolFailure::ArgumentCorruption));
    assert_eq!(result.value, serde_json::Value::Null);
    let result = judge(&broken, ToolOutput::Unusable(ToolFailure::SpawnFailed));
    assert_eq!(result.failure, Some(ToolFailure::ArgumentCorruption));
}

#[test]
fn judge_keeps_the_value_and_the_failure() {
    let result = judge(&invocation("x"), ToolOutput::Json(json("[1]")));
    assert_eq!(result.value, json("[1]"));
    assert_eq!(result.failure, None);
    let result = judge(&invocation("x"), ToolOutput::Unusable(ToolFailure::InvalidJson));
    assert_eq!(result.value, serde_json::Value::Null);
    assert_eq!(result.failure, Some(ToolFailure::InvalidJson));
}

#[test]
fn board_takes_each_result_once() {
    let mut board = ResultBoard::new(vec![invocation("a"), invocation("b"), invocation("c")]);
    assert!(!board.is_complete());
    assert!(board.record(1, &exited(0, "1")));
    assert!(!board.record(1, &exited(0, "2")));
    assert!(!board.record(3, &exited(0, "3")));
    assert!(!board.is_complete());
    assert!(board.record(2, &exited(1, "")));
    assert!(board.record(0, &exited(0, "\"zero\"")));
    assert!(board.is_complete());
    assert!(!board.record(0, &exited(0, "4")));
    let entries = board.entries();
    assert_eq!(entries.len(), 3);
    assert_eq!((entries[0].index, entries[0].call.id.as_str()), (1, "b"));
    assert_eq!(entries[0].result.value, json("1"));
    assert_eq!((entries[1].index, entries[1].call.id.as_str()), (2, "c"));
    assert_eq!(entries[1].result.failure, Some(ToolFailure::NonZeroExit));
    assert_eq!((entries[2].index, entries[2].call.id.as_str()), (0, "a"));
    assert_eq!(entries[2].result.value, json("\"zero\""));
    assert_eq!(board.invocations().len(), 3);
}

#[test]
fn board_results_do_not_depend_on_the_order() {
    let outcomes = ["{\"n\":0}", "{\"n\":1}", "{\"n\":2}"];
    let orders: [[usize; 3]; 3] = [[0, 1, 2], [2, 1, 0], [1, 2, 0]];
    for order in orders {
        let mut board = ResultBoard::new(vec![invocation("a"), invocation("b"), invocation("c")]);
        for index in order {
            assert!(board.record(index, &exited(0, outcomes[index])));
        }
        assert!(board.is_complete());
        let entries = board.entries();
        assert_eq!(entries.len(), 3);
        for index in 0..3 {
            let found: Vec<_> = entries.iter().filter(|e| e.index == index).collect();
            assert_eq!(found.len(), 1);
            assert_eq!(found[0].result.value, json(outcomes[index]));
        }
    }
}

#[test]
fn empty_board_is_complete() {
    let board = ResultBoard::new(vec![]);
    assert!(board.is_complete());
    assert!(board.entries().is_empty());
}

#[test]
fn continuation_appends_the_announcement_and_one_message_per_result() {
    let prior = vec![Message::system("be brief"), Message::user("weather?")];
    let calls = vec![call("1", "get_weather", "{}"), call("2", "get_news", "{}"), call("3", "get_time", "{}")];
    let mut board = ResultBoard::new(vec![
        Invocation { call: calls[0].clone(), executable: "w".to_string(), arguments_valid: true },
        Invocation { call: calls[2].clone(), executable: "t".to_string(), arguments_valid: true },
    ]);
    board.record(1, &exited(0, "{\"time\": \"noon\"}"));
    board.record(0, &exited(3, ""));
    let messages = build(&prior, &calls, board.entries());
    assert_eq!(messages.len(), 5);
    assert_eq!(messages[0].role, MessageRole::System);
    assert_eq!(messages[0].content, "be brief");
    assert_eq!(messages[1].role, MessageRole::User);
    assert_eq!(messages[1].content, "weather?");
    assert_eq!(messages[2].role, MessageRole::Assistant);
    assert_eq!(messages[2].content, "");
    assert_eq!(messages[2].tool_call_refs, vec!["1".to_string(), "2".to_string(), "3".to_string()]);
    assert_eq!(messages[2].tool_call_id, None);
    assert_eq!(messages[3].role, MessageRole::Tool);
    assert_eq!(messages[3].tool_call_id, Some("3".to_string()));
    assert_eq!(messages[3].content, "{\"time\":\"noon\"}");
    assert!(messages[3].tool_call_refs.is_empty());
    assert_eq!(messages[4].role, MessageRole::Tool);
    assert_eq!(messages[4].tool_call_id, Some("1".to_string()));
    assert_eq!(messages[4].content, "null");
}

#[test]
fn continuation_without_results_has_no_tool_message() {
    let prior = vec![Message::user("hi")];
    let calls = vec![call("1", "unknown", "{}")];
    let messages = build(&prior, &calls, &vec![]);
    assert_eq!(messages.len(), 2);
    assert_eq!(messages[1].role, MessageRole::Assistant);
    assert_eq!(messages[1].tool_call_refs, vec!["1".to_string()]);
    assert!(messages.iter().all(|m| m.role != MessageRole::Tool));
}

#[test]
fn messages_are_built_by_role() {
    let m = Message::assistant("hello");
    assert_eq!(m.role, MessageRole::Assistant);
    assert_eq!(m.content, "hello");
    assert!(m.tool_call_refs.is_empty());
    assert_eq!(m.tool_call_id, None);
    let t = Message::tool("id7", "{}".to_string());
    assert_eq!(t.role, MessageRole::Tool);
    assert_eq!(t.tool_call_id, Some("id7".to_string()));
    let a = Message::announcement(vec!["x".to_string()]);
    assert_eq!(a.role, MessageRole::Assistant);
    assert_eq!(a.tool_call_refs, vec!["x".to_string()]);
    let c = t.clone();
    assert_eq!(c.content, "{}");
    assert_eq!(c.tool_call_id, Some("id7".to_string()));
}

#[test]
fn collect_gives_one_entry_per_invocation() {
    let ended = vec![
        (2, exited(0, "2")),
        (0, ProcessOutcome::SpawnFailed),
        (2, exited(0, "22")),
        (7, exited(0, "7")),
        (1, exited(0, "[1]")),
    ];
    let board = collect(vec![invocation("a"), invocation("b"), invocation("c")], &ended);
    assert!(board.is_complete());
    let entries = board.entries();
    assert_eq!(entries.len(), 3);
    assert_eq!(entries[0].index, 2);
    assert_eq!(entries[0].call.id, "c");
    assert_eq!(entries[0].result.value, json("2"));
    assert_eq!(entries[1].index, 0);
    assert_eq!(entries[1].result.failure, Some(ToolFailure::SpawnFailed));
    assert_eq!(entries[2].index, 1);
    assert_eq!(entries[2].result.value, json("[1]"));
    let partial = collect(vec![invocation("a"), invocation("b")], &vec![(1, exited(0, "1"))]);
    assert!(!partial.is_complete());
    assert_eq!(partial.entries().len(), 1);
    assert!(collect(vec![], &vec![]).is_complete());
}
