//! The table of the known commands, the help text made from it, and the
//! highlighting of a command in the line that is being edited.

use crate::command::RealtimeCommand;
use crate::text::{from_chars, matches_at, occurs_at, to_chars};
use vstd::prelude::*;

verus! {

/// The names and descriptions of the known commands.
pub open spec fn command_table() -> Seq<(Seq<char>, Seq<char>)> {
    seq![
        (".help"@, "Show this help message"@),
        (".info"@, "View system info"@),
        (".prompt"@, "Create a temporary role using a prompt"@),
        (".role"@, "Create or switch to a specific role"@),
        (".session"@, "Begin a session"@),
        (".empty session"@, "Erase messages in the current session"@),
        (".save session"@, "Save the current session to file"@),
        (".exit session"@, "End the session"@),
        (".agent"@, "Use a agent"@),
        (".exit agent"@, "Leave the agent"@),
        (".rag"@, "Init or use the RAG"@),
        (".exit rag"@, "Leave the RAG"@),
        (".continue"@, "Continue the response"@),
        (".regenerate"@, "Regenerate the last response"@),
        (".exit"@, "Exit the Realtime"@),
    ]
}

/// The names and descriptions of a list of commands.
pub open spec fn table_of(commands: Seq<RealtimeCommand>) -> Seq<(Seq<char>, Seq<char>)> {
    Seq::new(commands.len(), |i: int| (commands[i].name@, commands[i].description@))
}

/// The known commands.
pub fn realtime_commands() -> (commands: Vec<RealtimeCommand>)
    ensures
        table_of(commands@) == command_table(),
{
    let mut commands: Vec<RealtimeCommand> = Vec::new();
    commands.push(RealtimeCommand::new(".help", "Show this help message"));
    commands.push(RealtimeCommand::new(".info", "View system info"));
    commands.push(RealtimeCommand::new(".prompt", "Create a temporary role using a prompt"));
    commands.push(RealtimeCommand::new(".role", "Create or switch to a specific role"));
    commands.push(RealtimeCommand::new(".session", "Begin a session"));
    commands.push(RealtimeCommand::new(".empty session", "Erase messages in the current session"));
    commands.push(RealtimeCommand::new(".save session", "Save the current session to file"));
    commands.push(RealtimeCommand::new(".exit session", "End the session"));
    commands.push(RealtimeCommand::new(".agent", "Use a agent"));
    commands.push(RealtimeCommand::new(".exit agent", "Leave the agent"));
    commands.push(RealtimeCommand::new(".rag", "Init or use the RAG"));
    commands.push(RealtimeCommand::new(".exit rag", "Leave the RAG"));
    commands.push(RealtimeCommand::new(".continue", "Continue the response"));
    commands.push(RealtimeCommand::new(".regenerate", "Regenerate the last response"));
    commands.push(RealtimeCommand::new(".exit", "Exit the Realtime"));
    assert(table_of(commands@) =~= command_table());
    commands
}

/// A text padded with spaces on the right up to `width` characters; a longer
/// text is unchanged.
pub open spec fn padded(text: Seq<char>, width: nat) -> Seq<char> {
    if text.len() >= width {
        text
    } else {
        text + Seq::new((width - text.len()) as nat, |i: int| ' ')
    }
}

/// The help line of a command: its name in a column of 24 characters, a
/// space, and its description.
pub open spec fn help_line(entry: (Seq<char>, Seq<char>)) -> Seq<char> {
    padded(entry.0, 24) + seq![' '] + entry.1
}

/// The help lines of the first `count` commands, separated by line breaks.
pub open spec fn help_lines(table: Seq<(Seq<char>, Seq<char>)>, count: nat) -> Seq<char>
    decreases count,
{
    if count == 0 || count > table.len() {
        Seq::empty()
    } else if count == 1 {
        help_line(table[0])
    } else {
        help_lines(table, (count - 1) as nat) + seq!['\n'] + help_line(table[count - 1])
    }
}

/// What follows the help lines.
pub const HELP_FOOTER: &'static str =
    "\n\nType ::: to start multi-line editing, type ::: to finish it.\nPress Ctrl+O to open an editor for editing the input buffer.\nPress Ctrl+C to cancel the response, Ctrl+D to exit the Realtime.";

/// The help text for a list of commands.
pub open spec fn help_text(table: Seq<(Seq<char>, Seq<char>)>) -> Seq<char> {
    help_lines(table, table.len()) + HELP_FOOTER@
}

/// Pads a text with spaces on the right up to `width` characters.
pub fn pad_right(text: &str, width: usize) -> (line: String)
    ensures
        line@ == padded(text@, width as nat),
{
    let chars = to_chars(text);
    let mut line = text.to_string();
    if chars.len() >= width {
        return line;
    }
    let missing = width - chars.len();
    let mut i: usize = 0;
    assert(text@ + Seq::new(0, |k: int| ' ') =~= text@);
    while i < missing
        invariant
            i <= missing,
            line@ == text@ + Seq::new(i as nat, |k: int| ' '),
        decreases missing - i,
    {
        line.push(' ');
        i += 1;
        assert(text@ + Seq::new(i as nat, |k: int| ' ') =~= (text@ + Seq::new(
            (i - 1) as nat,
            |k: int| ' ',
        )).push(' '));
    }
    line
}

/// The help text for a list of commands.
pub fn help_for(commands: &Vec<RealtimeCommand>) -> (text: String)
    ensures
        text@ == help_text(table_of(commands@)),
{
    let ghost table = table_of(commands@);
    let mut text = String::new();
    let mut i: usize = 0;
    while i < commands.len()
        invariant
            i <= commands.len(),
            table == table_of(commands@),
            text@ == help_lines(table, i as nat),
        decreases commands.len() - i,
    {
        let ghost before = text@;
        if i > 0 {
            text.push('\n');
        }
        text.append(pad_right(commands[i].name, 24).as_str());
        text.push(' ');
        text.append(commands[i].description);
        assert(text@ =~= if i == 0 {
            help_line(table[0])
        } else {
            before + seq!['\n'] + help_line(table[i as int])
        });
        i += 1;
    }
    text.append(HELP_FOOTER);
    text
}

/// The help text of the interactive front end.
pub fn realtime_help() -> (text: String)
    ensures
        text@ == help_text(command_table()),
{
    let commands = realtime_commands();
    help_for(&commands)
}

/// Whether `pattern` occurs somewhere in `s`.
pub open spec fn contains_text(s: Seq<char>, pattern: Seq<char>) -> bool {
    exists|at: int| occurs_at(s, pattern, at)
}

/// The first position at or after `from` where `pattern` occurs in `s`; one
/// past the length of `s` where it occurs nowhere.
pub open spec fn occurrence_from(s: Seq<char>, pattern: Seq<char>, from: int) -> int
    decreases s.len() + 1 - from,
{
    if from < 0 || from > s.len() {
        (s.len() + 1) as int
    } else if occurs_at(s, pattern, from) {
        from
    } else {
        occurrence_from(s, pattern, from + 1)
    }
}

proof fn lemma_occurrence_from(s: Seq<char>, pattern: Seq<char>, from: int)
    requires
        0 <= from <= s.len() + 1,
    ensures
        from <= occurrence_from(s, pattern, from) <= s.len() + 1,
        occurrence_from(s, pattern, from) <= s.len() ==> occurs_at(
            s,
            pattern,
            occurrence_from(s, pattern, from),
        ),
        forall|at: int| from <= at < occurrence_from(s, pattern, from) ==> !occurs_at(s, pattern, at),
    decreases s.len() + 1 - from,
{
    if from <= s.len() && !occurs_at(s, pattern, from) {
        lemma_occurrence_from(s, pattern, from + 1);
    }
}

/// The longest of the first `count` names that occur in the line; of several
/// longest the first; an empty text where none occurs.
pub open spec fn longest_match(names: Seq<Seq<char>>, line: Seq<char>, count: nat) -> Seq<char>
    decreases count,
{
    if count == 0 || count > names.len() {
        Seq::empty()
    } else {
        let before = longest_match(names, line, (count - 1) as nat);
        let name = names[count - 1];
        if contains_text(line, name) && name.len() > before.len() {
            name
        } else {
            before
        }
    }
}

/// How a piece of the line is shown.
#[derive(Clone, Copy, Debug, PartialEq, Eq, Structural)]
pub enum Emphasis {
    Plain,
    Command,
}

/// The pieces of a highlighted line: where a command name occurs, the text
/// before the first occurrence of the longest such name, the name, and the
/// text after it; else the whole line.
pub open spec fn highlight_model(names: Seq<Seq<char>>, line: Seq<char>) -> Seq<
    (Emphasis, Seq<char>),
> {
    let name = longest_match(names, line, names.len());
    if name.len() == 0 {
        seq![(Emphasis::Plain, line)]
    } else {
        let at = occurrence_from(line, name, 0);
        seq![
            (Emphasis::Plain, line.subrange(0, at)),
            (Emphasis::Command, name),
            (Emphasis::Plain, line.subrange(at + name.len(), line.len() as int)),
        ]
    }
}

/// The names of a table of commands.
pub open spec fn names_of(table: Seq<(Seq<char>, Seq<char>)>) -> Seq<Seq<char>> {
    Seq::new(table.len(), |i: int| table[i].0)
}

/// The views of a list of highlighted pieces.
pub open spec fn pieces_of(pieces: Seq<(Emphasis, String)>) -> Seq<(Emphasis, Seq<char>)> {
    Seq::new(pieces.len(), |i: int| (pieces[i].0, pieces[i].1@))
}

fn find_occurrence(chars: &Vec<char>, pattern: &Vec<char>) -> (found: Option<usize>)
    ensures
        found matches Some(at) ==> at == occurrence_from(chars@, pattern@, 0) && at <= chars.len(),
        found is None ==> occurrence_from(chars@, pattern@, 0) > chars.len(),
{
    let mut at: usize = 0;
    while at < chars.len()
        invariant
            at <= chars.len(),
            occurrence_from(chars@, pattern@, at as int) == occurrence_from(chars@, pattern@, 0),
        decreases chars.len() - at,
    {
        if matches_at(chars, pattern, at) {
            return Some(at);
        }
        at += 1;
    }
    if matches_at(chars, pattern, at) {
        Some(at)
    } else {
        assert(occurrence_from(chars@, pattern@, at + 1) == chars.len() + 1);
        None
    }
}

/// The highlighter of the line editor.
#[derive(Debug)]
pub struct RealtimeHighlighter;

impl RealtimeHighlighter {
    /// The highlighter.
    pub fn new() -> (highlighter: RealtimeHighlighter) {
        RealtimeHighlighter
    }

    /// Splits the line into the pieces to show. The cursor's position plays no
    /// part.
    pub fn highlight(&self, line: &str, _cursor: usize) -> (pieces: Vec<(Emphasis, String)>)
        ensures
            pieces_of(pieces@) == highlight_model(names_of(command_table()), line@),
    {
        let commands = realtime_commands();
        let chars = to_chars(line);
        let ghost names = names_of(command_table());
        let mut best: Vec<char> = Vec::new();
        let mut best_at: usize = 0;
        let mut i: usize = 0;
        assert(names.len() == commands.len()) by {
            assert(table_of(commands@).len() == command_table().len());
        }
        while i < commands.len()
            invariant
                i <= commands.len(),
                chars@ == line@,
                names == names_of(command_table()),
                names.len() == commands.len(),
                table_of(commands@) == command_table(),
                best@ == longest_match(names, line@, i as nat),
                best.len() > 0 ==> best_at == occurrence_from(line@, best@, 0) && best_at
                    + best.len() <= chars.len(),
            decreases commands.len() - i,
        {
            let name = to_chars(commands[i].name);
            assert(name@ == names[i as int]) by {
                assert(table_of(commands@)[i as int].0 == commands[i as int].name@);
            }
            if name.len() > best.len() {
                let found = find_occurrence(&chars, &name);
                proof {
                    lemma_occurrence_from(line@, name@, 0);
                    if contains_text(line@, name@) {
                        let k = choose|k: int| occurs_at(line@, name@, k);
                        assert(occurrence_from(line@, name@, 0) <= k);
                    }
                }
                match found {
                    Some(at) => {
                        best = name;
                        best_at = at;
                    },
                    None => {},
                }
            }
            i += 1;
        }
        let mut pieces: Vec<(Emphasis, String)> = Vec::new();
        if best.len() == 0 {
            pieces.push((Emphasis::Plain, line.to_string()));
            assert(pieces_of(pieces@) =~= highlight_model(names, line@));
        } else {
            let before = from_chars(&chars, 0, best_at);
            let name = from_chars(&best, 0, best.len());
            let after = from_chars(&chars, best_at + best.len(), chars.len());
            assert(name@ =~= best@);
            pieces.push((Emphasis::Plain, before));
            pieces.push((Emphasis::Command, name));
            pieces.push((Emphasis::Plain, after));
            assert(pieces_of(pieces@) =~= highlight_model(names, line@));
        }
        pieces
    }
}

/// The indicator of a reverse search in the history: the search term, marked
/// as failing where nothing was found.
pub open spec fn search_indicator(failing: bool, term: Seq<char>) -> Seq<char> {
    seq!['('] + (if failing {
        "failing "@
    } else {
        Seq::empty()
    }) + "reverse-search: "@ + term + ") "@
}

/// The indicator of a reverse search in the history.
pub fn history_search_indicator(failing: bool, term: &str) -> (indicator: String)
    ensures
        indicator@ == search_indicator(failing, term@),
{
    let mut indicator = String::new();
    indicator.push('(');
    if failing {
        indicator.append("failing ");
    } else {
        assert(indicator@ + Seq::<char>::empty() =~= indicator@);
    }
    indicator.append("reverse-search: ");
    indicator.append(term);
    indicator.append(") ");
    indicator
}

} // verus!
