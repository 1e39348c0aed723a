use ragents::agent::{Agent, AgentError, Tool, RAG_TEMPLATE};
use ragents::command::{
    interpret, multiline_text, parse_command, split_args, unknown_command, LineAction,
    RealtimeCommand, Usage,
};
use ragents::common::{get_env_name, normalize_env_name, WorkingMode};
use ragents::config::{CConfig, ConfigError, SessionChoice};
use ragents::highlighter::{
    help_for, pad_right, realtime_commands, realtime_help, Emphasis, RealtimeHighlighter,
};
use ragents::loader::{LoadedDocument, DEFAULT_EXTENSION, EXTENSION_METADATA};
use ragents::message::MessageRole;
use ragents::params::{ChatInstance, ChatWebParams, EmbeddingsParams, Messages, Role};
use ragents::rag::{chunk_ranges, Rag};
use ragents::session::{
    check_session_name, session_file_name, unnamed_session_name, ExitPlan, Input, NameCheck,
    Session,
};
use ragents::text::{decimal, from_chars, replace_text, to_chars, to_upper, trim};

fn pairs(items: &[(&str, &str)]) -> Vec<(String, String)> {
    items.iter().map(|(k, v)| (k.to_string(), v.to_string())).collect()
}

#[test]
fn working_mode_knows_itself() {
    assert!(WorkingMode::Realtime.is_realtime());
    assert!(!WorkingMode::Realtime.is_serve());
    assert!(WorkingMode::Serve.is_serve());
    assert!(!WorkingMode::Serve.is_realtime());
    assert_eq!(WorkingMode::default(), WorkingMode::Realtime);
}

#[test]
fn env_names_are_upper_case() {
    assert_eq!(get_env_name("config_dir"), "RAGENTS_CONFIG_DIR");
    assert_eq!(get_env_name("sessions_dir"), "RAGENTS_SESSIONS_DIR");
    assert_eq!(get_env_name(""), "RAGENTS_");
    assert_eq!(normalize_env_name("my-agent"), "MY_AGENT");
    assert_eq!(normalize_env_name("a-b-c1"), "A_B_C1");
    assert_eq!(normalize_env_name("é-z"), "é_Z");
}

#[test]
fn text_helpers_work_on_characters() {
    assert_eq!(to_chars("aé"), vec!['a', 'é']);
    assert_eq!(from_chars(&vec!['a', 'b', 'c'], 1, 3), "bc");
    assert_eq!(trim("  a b \t\n"), "a b");
    assert_eq!(trim("\u{3000}x\u{a0}"), "x");
    assert_eq!(trim("   "), "");
    assert_eq!(trim(""), "");
    assert_eq!(to_upper("abcXYZ-09{z}"), "ABCXYZ-09{Z}");
    assert_eq!(replace_text("a__X__b__X__", "__X__", "12"), "a12b12");
    assert_eq!(replace_text("aaa", "aa", "b"), "ba");
    assert_eq!(replace_text("abc", "", "x"), "abc");
    assert_eq!(replace_text("abc", "abcd", "x"), "abc");
    assert_eq!(decimal(0), "0");
    assert_eq!(decimal(8848), "8848");
    assert_eq!(decimal(u64::MAX), "18446744073709551615");
}

#[test]
fn parse_command_splits_command_and_arguments() {
    assert_eq!(parse_command(".help"), Some((".help", None)));
    assert_eq!(parse_command("  .agent coder  temp  "), Some((".agent", Some("coder  temp"))));
    assert_eq!(parse_command(".session   "), Some((".session", None)));
    assert_eq!(parse_command("."), Some((".", None)));
    assert_eq!(parse_command("hello .help"), None);
    assert_eq!(parse_command(""), None);
    assert_eq!(parse_command("   "), None);
    assert_eq!(parse_command("\t.exit\tsession"), Some((".exit", Some("session"))));
}

#[test]
fn split_args_splits_at_the_first_space() {
    assert_eq!(split_args(None), None);
    assert_eq!(split_args(Some("coder")), Some(("coder", None)));
    assert_eq!(split_args(Some("coder temp")), Some(("coder", Some("temp"))));
    assert_eq!(split_args(Some("coder   my session ")), Some(("coder", Some("my session"))));
    assert_eq!(split_args(Some("coder ")), Some(("coder", Some(""))));
    assert_eq!(split_args(Some(" x")), Some(("", Some("x"))));
}

#[test]
fn unknown_command_always_fails() {
    let error = unknown_command().unwrap_err();
    assert_eq!(error.message, "Unknown command. Type \".help\" for additional help.");
}

#[test]
fn multiline_text_is_what_stands_between_the_marks() {
    assert_eq!(multiline_text(":::hello:::"), Some("hello".to_string()));
    assert_eq!(multiline_text("  :::  a\nb \n:::  \n"), Some("a\nb \n".to_string()));
    assert_eq!(multiline_text("::::::"), Some("".to_string()));
    assert_eq!(multiline_text(":::::"), None);
    assert_eq!(multiline_text(":::a::: :::"), Some("a::: ".to_string()));
    assert_eq!(multiline_text("x:::a:::"), None);
    assert_eq!(multiline_text(":::a:::x"), None);
    assert_eq!(multiline_text(""), None);
}

#[test]
fn interpret_decides_what_a_line_asks_for() {
    assert!(matches!(interpret(".help"), LineAction::Help));
    assert!(matches!(interpret(".info"), LineAction::Info));
    assert!(matches!(interpret(".list"), LineAction::ShowUsage(Usage::List)));
    assert!(matches!(interpret(".list session"), LineAction::ListSessions));
    assert!(matches!(interpret(".list agent"), LineAction::ListAgents));
    assert!(matches!(interpret(".list tool"), LineAction::Unknown));
    assert!(matches!(interpret(".agent"), LineAction::ShowUsage(Usage::Agent)));
    assert!(matches!(
        interpret(".agent coder"),
        LineAction::UseAgent { agent, session: None } if agent == "coder"
    ));
    assert!(matches!(
        interpret(".agent coder work"),
        LineAction::UseAgent { agent, session: Some(session) } if agent == "coder" && session == "work"
    ));
    assert!(matches!(interpret(".regenerate"), LineAction::Regenerate));
    assert!(matches!(interpret(".session"), LineAction::UseSession(None)));
    assert!(matches!(interpret(".session s1"), LineAction::UseSession(Some(name)) if name == "s1"));
    assert!(matches!(interpret(".empty session"), LineAction::EmptySession));
    assert!(matches!(interpret(".empty"), LineAction::ShowUsage(Usage::Empty)));
    assert!(matches!(interpret(".exit session"), LineAction::ExitSession));
    assert!(matches!(interpret(".exit"), LineAction::ShowUsage(Usage::Exit)));
    assert!(matches!(interpret(".exit agent"), LineAction::ShowUsage(Usage::Exit)));
    assert!(matches!(interpret(".nope"), LineAction::Unknown));
    assert!(matches!(interpret("hello there"), LineAction::Ask(text) if text == "hello there"));
    assert!(matches!(interpret("::: two\nlines :::"), LineAction::Ask(text) if text == "two\nlines "));
    assert!(matches!(interpret(":::.help:::"), LineAction::Help));
    assert_eq!(Usage::List.text(), "Usage: .list <session|rag|agent|tool>");
    assert_eq!(Usage::Agent.text(), "Usage: .agent <agent-name> [session-name]");
    assert_eq!(Usage::Empty.text(), "Usage: .empty <session> [name]");
    assert_eq!(Usage::Exit.text(), "Usage: .exit <session> [name]");
}

#[test]
fn command_table_and_help() {
    let command = RealtimeCommand::new(".x", "does x");
    assert_eq!(command.name, ".x");
    assert_eq!(command.description, "does x");
    let commands = realtime_commands();
    assert_eq!(commands.len(), 15);
    assert_eq!(commands[0].name, ".help");
    assert_eq!(commands[14].name, ".exit");
    assert_eq!(commands[14].description, "Exit the Realtime");
    assert_eq!(pad_right("ab", 4), "ab  ");
    assert_eq!(pad_right("abcd", 2), "abcd");
    let help = help_for(&vec![RealtimeCommand::new(".a", "first"), RealtimeCommand::new(".b", "second")]);
    let expected = format!(
        "{:<24} {}\n{:<24} {}\n\nType ::: to start multi-line editing, type ::: to finish it.\nPress Ctrl+O to open an editor for editing the input buffer.\nPress Ctrl+C to cancel the response, Ctrl+D to exit the Realtime.",
        ".a", "first", ".b", "second"
    );
    assert_eq!(help, expected);
    let full = realtime_help();
    assert!(full.starts_with(".help                    Show this help message\n.info "));
    assert_eq!(full.lines().count(), 19);
}

#[test]
fn highlighter_marks_the_longest_command() {
    let highlighter = RealtimeHighlighter::new();
    assert_eq!(
        highlighter.highlight("hello", 0),
        vec![(Emphasis::Plain, "hello".to_string())]
    );
    assert_eq!(
        highlighter.highlight("  .exit session now", 3),
        vec![
            (Emphasis::Plain, "  ".to_string()),
            (Emphasis::Command, ".exit session".to_string()),
            (Emphasis::Plain, " now".to_string()),
        ]
    );
    assert_eq!(
        highlighter.highlight(".help", 0),
        vec![
            (Emphasis::Plain, "".to_string()),
            (Emphasis::Command, ".help".to_string()),
            (Emphasis::Plain, "".to_string()),
        ]
    );
    assert_eq!(
        highlighter.highlight(".rag .rag", 0),
        vec![
            (Emphasis::Plain, "".to_string()),
            (Emphasis::Command, ".rag".to_string()),
            (Emphasis::Plain, " .rag".to_string()),
        ]
    );
}

#[test]
fn loaded_document_keeps_its_parts() {
    let document = LoadedDocument::new(
        "a.txt".to_string(),
        "text".to_string(),
        pairs(&[(EXTENSION_METADATA, DEFAULT_EXTENSION)]),
    );
    assert_eq!(document.path, "a.txt");
    assert_eq!(document.contents, "text");
    assert_eq!(document.metadata, pairs(&[("__extension__", "txt")]));
}

#[test]
fn chunk_ranges_overlap_as_asked() {
    assert_eq!(chunk_ranges(10, 4, 1), vec![(0, 4), (3, 7), (6, 10), (9, 10)]);
    assert_eq!(chunk_ranges(10, 5, 0), vec![(0, 5), (5, 10)]);
    assert_eq!(chunk_ranges(3, 5, 2), vec![(0, 3)]);
    assert_eq!(chunk_ranges(0, 5, 2), vec![]);
    assert_eq!(chunk_ranges(usize::MAX, usize::MAX, 0), vec![(0, usize::MAX)]);
    let rag = Rag::default();
    assert_eq!(rag.rag_chunk_size, 0);
    assert!(rag.documents.is_empty());
}

#[test]
fn messages_template_frames_every_message() {
    let list = vec![
        Messages { role: Role::system, content: "be brief".to_string() },
        Messages { role: Role::user, content: "hi".to_string() },
        Messages { role: Role::assistant, content: "hello".to_string() },
    ];
    assert_eq!(
        ChatWebParams::messages_template(&list),
        "<|im_start|>system\nbe brief<|im_end|>\n<|im_start|>user\nhi<|im_end|>\n<|im_start|>assistant\nhello<|im_end|>\n<|im_start|>assistant\n"
    );
    assert_eq!(ChatWebParams::messages_template(&vec![]), "<|im_start|>assistant\n");
}

fn web_params(with_messages: bool, model: Option<&str>, seed: Option<u64>) -> ChatWebParams {
    ChatWebParams {
        messages: if with_messages {
            Some(vec![Messages { role: Role::user, content: "hi".to_string() }])
        } else {
            None
        },
        model: model.map(|m| m.to_string()),
        seed,
    }
}

#[test]
fn to_instance_asks_for_messages_and_model() {
    assert_eq!(web_params(false, Some("m"), None).to_instance().unwrap_err(), "promote should provide!");
    assert_eq!(web_params(false, None, None).to_instance().unwrap_err(), "promote should provide!");
    assert_eq!(web_params(true, None, Some(3)).to_instance().unwrap_err(), "model should provide!");
    let instance = web_params(true, Some("qwen"), None).to_instance().unwrap();
    assert_eq!(instance.model, "qwen");
    assert_eq!(instance.seed, 1);
    assert_eq!(instance.repeat_last_n, 0);
    assert_eq!(instance.promote, "<|im_start|>user\nhi<|im_end|>\n<|im_start|>assistant\n");
    assert_eq!(web_params(true, Some("qwen"), Some(7)).to_instance().unwrap().seed, 7);
    let empty = ChatInstance::default();
    assert_eq!(empty.seed, 0);
    assert_eq!(empty.promote, "");
    let params = EmbeddingsParams::default();
    assert_eq!(params.input, "");
    assert_eq!(params.user, "");
}

#[test]
fn session_appends_and_builds_messages() {
    let mut session = Session::new("work");
    assert!(session.is_empty());
    assert!(!session.is_dirty());
    assert_eq!(session.name(), "work");
    let input = Input::from_str("question");
    assert!(!input.is_empty());
    assert!(Input::from_str("").is_empty());
    assert_eq!(input.message_content(), "question");
    assert!(!input.regenerate());
    let built = session.build_messages(&input);
    assert_eq!(built.len(), 1);
    assert_eq!(built[0].role, MessageRole::User);
    assert_eq!(built[0].content, "question");
    session.add_message(&input, "answer");
    assert!(session.is_dirty());
    assert_eq!(session.messages().len(), 2);
    assert_eq!(session.messages()[0].role, MessageRole::User);
    assert_eq!(session.messages()[0].content, "question");
    assert_eq!(session.messages()[1].role, MessageRole::Assistant);
    assert_eq!(session.messages()[1].content, "answer");
    session.add_message(&input, "answer");
    assert_eq!(session.messages().len(), 4);
    let next = session.echo_messages(&Input::from_str("more"));
    assert_eq!(next.len(), 5);
    assert_eq!(next[4].content, "more");
    let again = session.build_messages(&Input::again("question"));
    assert_eq!(again.len(), 3);
    assert_eq!(again[2].role, MessageRole::User);
    assert!(Session::new("x").build_messages(&Input::again("q")).is_empty());
    session.clear_messages();
    assert!(session.is_empty());
    assert!(session.is_dirty());
}

#[test]
fn session_exit_plans() {
    let input = Input::from_str("q");
    let clean = Session::new("temp");
    assert_eq!(clean.exit(true), ExitPlan::Discard);
    let mut temp = Session::new("temp");
    temp.add_message(&input, "a");
    assert_eq!(temp.exit(true), ExitPlan::Ask { needs_name: true });
    assert_eq!(temp.exit(false), ExitPlan::Discard);
    temp.set_save_session(Some(false));
    assert_eq!(temp.exit(true), ExitPlan::Discard);
    temp.set_save_session(Some(true));
    assert_eq!(temp.exit(true), ExitPlan::SaveUnnamed);
    assert_eq!(temp.exit(false), ExitPlan::SaveUnnamed);
    let mut named = Session::new("work");
    named.add_message(&input, "a");
    assert_eq!(named.exit(true), ExitPlan::Ask { needs_name: false });
    named.set_save_session(Some(true));
    assert_eq!(named.exit(false), ExitPlan::SaveNamed);
    named.mark_saved("work2", "/tmp/work2.yaml");
    assert_eq!(named.name(), "work2");
    assert!(!named.is_dirty());
    assert_eq!(named.exit(true), ExitPlan::Discard);
    named.adopt("_/20240101T000000-x", "/tmp/x.yaml");
    assert_eq!(named.name(), "temp");
    named.adopt("mine", "/tmp/mine.yaml");
    assert_eq!(named.name(), "mine");
}

#[test]
fn session_names_and_files() {
    assert_eq!(check_session_name("  "), NameCheck::Required);
    assert_eq!(check_session_name(""), NameCheck::Required);
    assert_eq!(check_session_name(" temp "), NameCheck::Reserved);
    assert_eq!(check_session_name("work"), NameCheck::Valid);
    assert_eq!(session_file_name("work"), "work.yaml");
    assert_eq!(unnamed_session_name("20240102T030405", "32423532"), "20240102T030405-32423532");
}

#[test]
fn agent_finds_tools_and_wraps_context() {
    let mut agent = Agent::empty();
    agent.name = "coder".to_string();
    agent.tools = vec!["search".to_string(), "shell".to_string()];
    let known = pairs(&[("shell", "/t/shell.yaml"), ("search", "/t/search.yaml")]);
    assert_eq!(
        agent.tool_files(&known).unwrap(),
        pairs(&[("search", "/t/search.yaml"), ("shell", "/t/shell.yaml")])
    );
    assert_eq!(agent.tool_files(&pairs(&[("shell", "x")])).unwrap_err(), AgentError::NoToolFound);
    assert_eq!(agent.rag_file(&known).unwrap(), None);
    agent.rags = Some("docs".to_string());
    assert_eq!(agent.rag_file(&known).unwrap_err(), AgentError::NoRagFound);
    assert_eq!(
        agent.rag_file(&pairs(&[("docs", "/r/docs.yaml")])).unwrap(),
        Some(("docs".to_string(), "/r/docs.yaml".to_string()))
    );
    assert_eq!(AgentError::NoToolFound.message(), "There is no tool found.");
    assert_eq!(AgentError::NoRagFound.message(), "There is no rag found.");
    agent.tool = vec![
        Tool {
            tool_json: vec![],
            tool_exec: pairs(&[("grep", "/bin/grep")]),
            tool: vec!["s1".to_string(), "s2".to_string()],
        },
        Tool {
            tool_json: vec![],
            tool_exec: pairs(&[("grep", "/bin/other"), ("ls", "/bin/ls")]),
            tool: vec!["s3".to_string()],
        },
    ];
    assert_eq!(agent.tool_exec("grep"), Some("/bin/grep"));
    assert_eq!(agent.tool_exec("ls"), Some("/bin/ls"));
    assert_eq!(agent.tool_exec("cat"), None);
    assert_eq!(agent.tool[1].tool_exec("grep"), Some("/bin/other"));
    assert_eq!(agent.echo_tool(), vec!["s1".to_string(), "s2".to_string(), "s3".to_string()]);
    assert_eq!(agent.rag_template("", "what?"), "what?");
    let wrapped = agent.rag_template("some facts", "what?");
    assert_eq!(
        wrapped,
        RAG_TEMPLATE.replace("__CONTEXT__", "some facts").replace("__INPUT__", "what?")
    );
    assert!(wrapped.contains("<context>\nsome facts\n</context>"));
    assert!(wrapped.ends_with("<user_query>\nwhat?\n</user_query>"));
}

#[test]
fn config_addresses_and_info() {
    let mut config = CConfig::new("http://localhost:8080/v1", "qwen");
    assert_eq!(config.get_http_addr(), "0.0.0.0:8848");
    config.http_port = Some(80);
    assert_eq!(config.get_http_addr(), "0.0.0.0:80");
    config.http_port = Some(0);
    assert_eq!(config.get_http_addr(), "0.0.0.0:0");
    assert_eq!(config.get_api_base(), "http://localhost:8080/v1");
    assert_eq!(config.get_api_key(), "");
    config.api_key = Some("SECRET".to_string());
    assert_eq!(config.get_api_key(), "SECRET");
    assert_eq!(
        config.sysinfo(),
        format!("{:<24}{}\n{:<24}{}\n", "api_base", "http://localhost:8080/v1", "model", "qwen")
    );
    assert_eq!(config.session_file("work"), vec!["work.yaml".to_string()]);
    assert_eq!(config.session_file("_/auto"), vec!["_".to_string(), "auto.yaml".to_string()]);
    assert_eq!(config.session_file("a/b/c"), vec!["a".to_string(), "b/c.yaml".to_string()]);
}

#[test]
fn config_prompts() {
    let mut config = CConfig::new("base", "qwen");
    let green = "\u{1b}[32m";
    let cyan = "\u{1b}[36m";
    let reset = "\u{1b}[0m";
    let purple = "\u{1b}[35m";
    assert_eq!(config.render_prompt_left(), format!("{green}{cyan}>{reset} "));
    assert_eq!(config.render_prompt_right(), format!("{purple}{reset}"));
    config.session = Some(Session::new("temp"));
    assert_eq!(config.render_prompt_left(), format!("{green}temp{cyan}){reset} "));
    let mut agent = Agent::empty();
    agent.name = "coder".to_string();
    config.agent = Some(agent);
    assert_eq!(config.render_prompt_left(), format!("{green}coder>temp{cyan}){reset} "));
    config.session = None;
    let mut rag = Rag::default();
    rag.rag_embedding_model = "bge".to_string();
    config.rag = Some(rag);
    assert_eq!(config.render_prompt_left(), format!("{green}coder>@bge{cyan}>{reset} "));
    config.temperature = Some("0.7".to_string());
    let context = config.generate_prompt_context();
    assert_eq!(context[0], ("model".to_string(), "qwen".to_string()));
    assert_eq!(context[1], ("temperature".to_string(), "0.7".to_string()));
    assert_eq!(context[2], ("rag".to_string(), "bge".to_string()));
    assert_eq!(context[3], ("agent".to_string(), "coder".to_string()));
    assert_eq!(context.len(), 4 + 19);
    assert_eq!(context[4], ("color.reset".to_string(), reset.to_string()));
}

#[test]
fn config_turns_and_sessions() {
    let mut config = CConfig::new("base", "qwen");
    let input = Input::from_str("q");
    assert_eq!(config.echo_message(&input).len(), 1);
    config.before_chat_completion(&input);
    assert_eq!(config.last_message.as_ref().unwrap().1, "");
    config.after_chat_completion(&input, "a");
    assert_eq!(config.last_message.as_ref().unwrap().0.text, "q");
    assert_eq!(config.last_message.as_ref().unwrap().1, "a");
    assert!(config.session.is_none());
    assert_eq!(config.empty_session(), Err(ConfigError::NoSession));
    assert_eq!(config.save_session(Some("x")), Err(ConfigError::NoSession));
    assert!(config.exit_session().is_none());

    assert!(matches!(config.use_session(None), Ok(SessionChoice::Temporary)));
    assert!(matches!(config.use_session(Some("temp")), Ok(SessionChoice::Temporary)));
    assert!(matches!(config.use_session(Some("work")), Ok(SessionChoice::Named(name)) if name == "work"));
    config.session = Some(Session::new("work"));
    assert!(matches!(config.use_session(Some("other")), Err(ConfigError::AlreadyInSession)));
    config.after_chat_completion(&input, "a");
    assert_eq!(config.session.as_ref().unwrap().messages().len(), 2);
    assert_eq!(config.echo_message(&Input::from_str("next")).len(), 3);
    assert_eq!(config.save_session(None), Ok("".to_string()));
    assert_eq!(config.save_session(Some("kept")), Ok("kept".to_string()));
    assert_eq!(config.empty_session(), Ok(()));
    assert!(config.last_message.is_none());
    assert!(config.session.as_ref().unwrap().is_empty());
    let (session, plan) = config.exit_session().unwrap();
    assert_eq!(session.name(), "work");
    assert_eq!(plan, ExitPlan::Ask { needs_name: false });
    assert!(config.session.is_none());

    config.agents = pairs(&[("coder", "/a/coder.yaml")]);
    assert_eq!(config.use_agent("coder"), Ok("/a/coder.yaml".to_string()));
    assert_eq!(config.use_agent("poet"), Err(ConfigError::NoSuchAgent));
    config.agent = Some(Agent::empty());
    config.rag = Some(Rag::default());
    assert_eq!(config.use_agent("coder"), Err(ConfigError::AlreadyInAgent));
    config.last_message = Some((Input::from_str("q"), "a".to_string()));
    assert!(config.exit_agent().is_none());
    assert!(config.agent.is_none());
    assert!(config.rag.is_none());
    assert!(config.last_message.is_none());
    assert_eq!(ConfigError::NoSession.message(), "No session");
    assert_eq!(ConfigError::NoSuchAgent.message(), "No this agent");
}
