//! The commands of the interactive front end: how a line is split into a
//! command and its arguments, and the table of the known commands.

use crate::text::{
    find_char, find_non_space, find_space, find_trim_end, first_index_from, from_chars,
    lemma_skip_spaces, matches_at, occurs_at, skip_spaces, skip_word, to_chars, trim, trim_end_at,
    trimmed,
};
use vstd::prelude::*;

verus! {

/// One command of the interactive front end, with the line of help for it.
#[derive(Debug, Clone)]
pub struct RealtimeCommand {
    pub name: &'static str,
    pub description: &'static str,
}

impl RealtimeCommand {
    /// A command with its description.
    pub fn new(name: &'static str, desc: &'static str) -> (command: RealtimeCommand)
        ensures
            command.name@ == name@,
            command.description@ == desc@,
    {
        RealtimeCommand { name, description: desc }
    }
}

/// The error of a line that names no known command.
#[derive(Debug)]
pub struct CommandError {
    pub message: String,
}

/// The complaint about an unknown command. It always fails.
pub fn unknown_command() -> (outcome: Result<(), CommandError>)
    ensures
        outcome is Err,
        outcome->Err_0.message@ == "Unknown command. Type \".help\" for additional help."@,
{
    Err(
        CommandError {
            message: "Unknown command. Type \".help\" for additional help.".to_string(),
        },
    )
}

/// A text, or nothing where the text is empty.
pub open spec fn non_empty(text: Seq<char>) -> Option<Seq<char>> {
    if text.len() == 0 {
        None
    } else {
        Some(text)
    }
}

/// An argument string split at its first space: the sub-command before it and
/// the rest, without surrounding white space, after it. Without a space the
/// whole string is the sub-command and there is no rest.
pub open spec fn split_model(args: Seq<char>) -> (Seq<char>, Option<Seq<char>>) {
    let space = first_index_from(args, 0, ' ');
    if space < 0 || space >= args.len() {
        (args, None)
    } else {
        (args.subrange(0, space), Some(trimmed(args.subrange(space + 1, args.len() as int))))
    }
}

/// Splits the arguments of a command into a sub-command and the rest.
pub fn split_args<'a>(args: Option<&'a str>) -> (parts: Option<(&'a str, Option<&'a str>)>)
    ensures
        args is None <==> parts is None,
        args matches Some(text) ==> parts matches Some((head, rest)) && head@ == split_model(
            text@,
        ).0 && rest.deep_view() == split_model(text@).1,
{
    match args {
        None => None,
        Some(text) => {
            let chars = to_chars(text);
            let space = find_char(&chars, 0, ' ');
            if space >= chars.len() {
                Some((text, None))
            } else {
                let head = text.substring_char(0, space);
                let rest = text.substring_char(space + 1, chars.len());
                Some((head, Some(trim(rest))))
            }
        },
    }
}

/// A command line taken apart: `None` where the line, after leading white
/// space, does not begin with a dot. Else the command is the run of characters
/// from the dot up to the next white space, and the arguments are the rest of
/// the line without surrounding white space, if anything is left.
pub open spec fn command_model(line: Seq<char>) -> Option<(Seq<char>, Option<Seq<char>>)> {
    let start = skip_spaces(line, 0);
    if start < 0 || start >= line.len() || line[start] != '.' {
        None
    } else {
        let end = skip_word(line, start);
        Some(
            (
                line.subrange(start, end),
                non_empty(trimmed(line.subrange(end, line.len() as int))),
            ),
        )
    }
}

/// Takes a line apart into a command and its arguments.
pub fn parse_command<'a>(line: &'a str) -> (parsed: Option<(&'a str, Option<&'a str>)>)
    ensures
        parsed is Some <==> command_model(line@) is Some,
        parsed matches Some((command, args)) ==> command@ == command_model(line@)->Some_0.0
            && args.deep_view() == command_model(line@)->Some_0.1,
{
    let chars = to_chars(line);
    let start = find_non_space(&chars, 0);
    if start >= chars.len() || chars[start] != '.' {
        None
    } else {
        let end = find_space(&chars, start);
        let command = line.substring_char(start, end);
        let rest = trim(line.substring_char(end, chars.len()));
        if rest.is_empty() {
            Some((command, None))
        } else {
            Some((command, Some(rest)))
        }
    }
}

/// The text between the `:::` marks of a multi-line input: the line must
/// begin, after white space, with `:::` and end, before white space, with
/// another `:::`. The text starts after the white space that follows the first
/// mark and runs up to the last mark.
pub open spec fn multiline_model(line: Seq<char>) -> Option<Seq<char>> {
    let start = skip_spaces(line, 0);
    let end = trim_end_at(line, start, line.len() as int);
    if occurs_at(line, ":::"@, start) && start + 6 <= end && occurs_at(line, ":::"@, end - 3) {
        Some(line.subrange(skip_spaces(line, start + 3), end - 3))
    } else {
        None
    }
}

/// The text of a multi-line input, if the line is one.
pub fn multiline_text(line: &str) -> (text: Option<String>)
    ensures
        text.deep_view() == multiline_model(line@),
{
    let chars = to_chars(line);
    let mark = to_chars(":::");
    proof {
        reveal_strlit(":::");
        lemma_skip_spaces(chars@, 0);
    }
    let start = find_non_space(&chars, 0);
    let end = find_trim_end(&chars, start, chars.len());
    if end - start >= 6 && matches_at(&chars, &mark, start) && matches_at(&chars, &mark, end - 3) {
        let from = find_non_space(&chars, start + 3);
        proof {
            lemma_skip_spaces(chars@, start + 3);
            assert(chars@.subrange(end - 3, end as int)[0] == ':');
            assert(chars@[end - 3] == ':');
            if from > end - 3 {
                assert(crate::text::is_space(chars@[end - 3]));
            }
        }
        Some(from_chars(&chars, from, end - 3))
    } else {
        None
    }
}

/// Which usage line is shown.
#[derive(Clone, Copy, Debug, PartialEq, Eq, Structural)]
pub enum Usage {
    List,
    Agent,
    Empty,
    Exit,
}

impl Usage {
    /// The usage line.
    pub fn text(&self) -> (line: &'static str)
        ensures
            line@ == match self {
                Usage::List => "Usage: .list <session|rag|agent|tool>"@,
                Usage::Agent => "Usage: .agent <agent-name> [session-name]"@,
                Usage::Empty => "Usage: .empty <session> [name]"@,
                Usage::Exit => "Usage: .exit <session> [name]"@,
            },
    {
        match self {
            Usage::List => "Usage: .list <session|rag|agent|tool>",
            Usage::Agent => "Usage: .agent <agent-name> [session-name]",
            Usage::Empty => "Usage: .empty <session> [name]",
            Usage::Exit => "Usage: .exit <session> [name]",
        }
    }
}

/// What a line entered at the terminal asks for.
#[derive(Debug)]
pub enum LineAction {
    /// Show the help.
    Help,
    /// Show the system information.
    Info,
    /// List the sessions.
    ListSessions,
    /// List the agents.
    ListAgents,
    /// Show a usage line.
    ShowUsage(Usage),
    /// Use an agent, with a session where one is named.
    UseAgent { agent: String, session: Option<String> },
    /// Ask for the last answer once more.
    Regenerate,
    /// Begin a session, under a name where one is given.
    UseSession(Option<String>),
    /// Erase the messages of the current session.
    EmptySession,
    /// Leave the current session.
    ExitSession,
    /// Complain about an unknown command.
    Unknown,
    /// Send the text to the model.
    Ask(String),
}

/// The mathematical value of a [`LineAction`].
pub ghost enum LineActionModel {
    Help,
    Info,
    ListSessions,
    ListAgents,
    ShowUsage(Usage),
    UseAgent { agent: Seq<char>, session: Option<Seq<char>> },
    Regenerate,
    UseSession(Option<Seq<char>>),
    EmptySession,
    ExitSession,
    Unknown,
    Ask(Seq<char>),
}

impl View for LineAction {
    type V = LineActionModel;

    open spec fn view(&self) -> LineActionModel {
        match self {
            LineAction::Help => LineActionModel::Help,
            LineAction::Info => LineActionModel::Info,
            LineAction::ListSessions => LineActionModel::ListSessions,
            LineAction::ListAgents => LineActionModel::ListAgents,
            LineAction::ShowUsage(usage) => LineActionModel::ShowUsage(*usage),
            LineAction::UseAgent { agent, session } => LineActionModel::UseAgent {
                agent: agent@,
                session: session.deep_view(),
            },
            LineAction::Regenerate => LineActionModel::Regenerate,
            LineAction::UseSession(name) => LineActionModel::UseSession(name.deep_view()),
            LineAction::EmptySession => LineActionModel::EmptySession,
            LineAction::ExitSession => LineActionModel::ExitSession,
            LineAction::Unknown => LineActionModel::Unknown,
            LineAction::Ask(text) => LineActionModel::Ask(text@),
        }
    }
}

/// What a command with its arguments asks for.
pub open spec fn command_action(command: Seq<char>, args: Option<Seq<char>>) -> LineActionModel {
    if command == ".help"@ {
        LineActionModel::Help
    } else if command == ".info"@ {
        LineActionModel::Info
    } else if command == ".list"@ {
        match args {
            None => LineActionModel::ShowUsage(Usage::List),
            Some(what) => if what == "session"@ {
                LineActionModel::ListSessions
            } else if what == "agent"@ {
                LineActionModel::ListAgents
            } else {
                LineActionModel::Unknown
            },
        }
    } else if command == ".agent"@ {
        match args {
            None => LineActionModel::ShowUsage(Usage::Agent),
            Some(text) => LineActionModel::UseAgent {
                agent: split_model(text).0,
                session: split_model(text).1,
            },
        }
    } else if command == ".regenerate"@ {
        LineActionModel::Regenerate
    } else if command == ".session"@ {
        LineActionModel::UseSession(args)
    } else if command == ".empty"@ {
        if args == Some("session"@) {
            LineActionModel::EmptySession
        } else {
            LineActionModel::ShowUsage(Usage::Empty)
        }
    } else if command == ".exit"@ {
        if args == Some("session"@) {
            LineActionModel::ExitSession
        } else {
            LineActionModel::ShowUsage(Usage::Exit)
        }
    } else {
        LineActionModel::Unknown
    }
}

/// What a line asks for: a multi-line input counts by the text between its
/// marks; a line that begins with a dot is a command; any other line is text
/// for the model.
pub open spec fn line_action(line: Seq<char>) -> LineActionModel {
    let text = match multiline_model(line) {
        Some(inner) => inner,
        None => line,
    };
    match command_model(text) {
        Some((command, args)) => command_action(command, args),
        None => LineActionModel::Ask(text),
    }
}

fn owned(text: Option<&str>) -> (copy: Option<String>)
    ensures
        copy.deep_view() == text.deep_view(),
{
    match text {
        Some(text) => Some(text.to_string()),
        None => None,
    }
}

fn is_text(args: Option<&str>, wanted: &str) -> (same: bool)
    ensures
        same == (args.deep_view() == Some(wanted@)),
{
    match args {
        Some(text) => text.eq(wanted),
        None => false,
    }
}

/// Decides what a command with its arguments asks for.
pub fn interpret_command(command: &str, args: Option<&str>) -> (action: LineAction)
    ensures
        action@ == command_action(command@, args.deep_view()),
{
    if command.eq(".help") {
        LineAction::Help
    } else if command.eq(".info") {
        LineAction::Info
    } else if command.eq(".list") {
        match args {
            None => LineAction::ShowUsage(Usage::List),
            Some(what) => if what.eq("session") {
                LineAction::ListSessions
            } else if what.eq("agent") {
                LineAction::ListAgents
            } else {
                LineAction::Unknown
            },
        }
    } else if command.eq(".agent") {
        match split_args(args) {
            None => LineAction::ShowUsage(Usage::Agent),
            Some((agent, session)) => LineAction::UseAgent {
                agent: agent.to_string(),
                session: owned(session),
            },
        }
    } else if command.eq(".regenerate") {
        LineAction::Regenerate
    } else if command.eq(".session") {
        LineAction::UseSession(owned(args))
    } else if command.eq(".empty") {
        if is_text(args, "session") {
            LineAction::EmptySession
        } else {
            LineAction::ShowUsage(Usage::Empty)
        }
    } else if command.eq(".exit") {
        if is_text(args, "session") {
            LineAction::ExitSession
        } else {
            LineAction::ShowUsage(Usage::Exit)
        }
    } else {
        LineAction::Unknown
    }
}

/// Decides what a line entered at the terminal asks for.
pub fn interpret(line: &str) -> (action: LineAction)
    ensures
        action@ == line_action(line@),
{
    match multiline_text(line) {
        Some(inner) => match parse_command(inner.as_str()) {
            Some((command, args)) => interpret_command(command, args),
            None => LineAction::Ask(inner),
        },
        None => match parse_command(line) {
            Some((command, args)) => interpret_command(command, args),
            None => LineAction::Ask(line.to_string()),
        },
    }
}

} // verus!
