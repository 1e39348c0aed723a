//! The session: the transcript of a conversation, the input of a turn, and the
//! decisions around keeping a session when it is left.

use crate::common::TEMP_SESSION_NAME;
use crate::message::{
    clone_messages, clone_strings, plain_message, Message, MessageModel, MessageRole,
};
use crate::text::{to_chars, trim, trimmed};
use vstd::prelude::*;

verus! {

/// What the user entered for one turn.
#[derive(Debug)]
pub struct Input {
    pub text: String,
    pub regenerate: bool,
    pub medias: Vec<String>,
}

impl Input {
    /// The input made of a line of text.
    pub fn from_str(text: &str) -> (input: Input)
        ensures
            input.text@ == text@,
            !input.regenerate,
            input.medias@.len() == 0,
    {
        Input { text: text.to_string(), regenerate: false, medias: Vec::new() }
    }

    /// The input that asks for the last answer once more.
    pub fn again(text: &str) -> (input: Input)
        ensures
            input.text@ == text@,
            input.regenerate,
            input.medias@.len() == 0,
    {
        Input { text: text.to_string(), regenerate: true, medias: Vec::new() }
    }

    /// Whether there is nothing to send: no text and no media.
    pub fn is_empty(&self) -> (empty: bool)
        ensures
            empty == (self.text@.len() == 0 && self.medias@.len() == 0),
    {
        self.text.as_str().is_empty() && self.medias.len() == 0
    }

    /// The text of the input.
    pub fn message_content(&self) -> (text: &str)
        ensures
            text@ == self.text@,
    {
        self.text.as_str()
    }

    /// Whether the input asks for the last answer once more.
    pub fn regenerate(&self) -> (again: bool)
        ensures
            again == self.regenerate,
    {
        self.regenerate
    }
}

impl Clone for Input {
    fn clone(&self) -> (copy: Input)
        ensures
            copy.text@ == self.text@,
            copy.regenerate == self.regenerate,
            copy.medias.deep_view() == self.medias.deep_view(),
    {
        Input {
            text: self.text.clone(),
            regenerate: self.regenerate,
            medias: clone_strings(&self.medias),
        }
    }
}

/// The transcript of a conversation.
#[derive(Debug)]
pub struct Session {
    messages: Vec<Message>,
    pub name: String,
    path: Option<String>,
    pub dirty: bool,
    save_session: Option<bool>,
}

/// The mathematical value of a [`Session`].
pub ghost struct SessionModel {
    pub messages: Seq<MessageModel>,
    pub name: Seq<char>,
    pub path: Option<Seq<char>>,
    pub dirty: bool,
    pub save_session: Option<bool>,
}

impl View for Session {
    type V = SessionModel;

    closed spec fn view(&self) -> SessionModel {
        SessionModel {
            messages: self.messages.deep_view(),
            name: self.name@,
            path: self.path.deep_view(),
            dirty: self.dirty,
            save_session: self.save_session,
        }
    }
}

/// The messages of the request for a turn: the transcript and the input as a
/// user message; or, where the last answer is asked for once more, the
/// transcript without its last message.
pub open spec fn turn_messages(transcript: Seq<MessageModel>, text: Seq<char>, again: bool) -> Seq<
    MessageModel,
> {
    if again {
        if transcript.len() == 0 {
            transcript
        } else {
            transcript.drop_last()
        }
    } else {
        transcript.push(plain_message(MessageRole::User, text))
    }
}

/// The transcript after a turn was committed: the input as a user message and
/// the answer as an assistant message are appended.
pub open spec fn appended(transcript: Seq<MessageModel>, input: Seq<char>, output: Seq<char>)
    -> Seq<MessageModel> {
    transcript.push(plain_message(MessageRole::User, input)).push(
        plain_message(MessageRole::Assistant, output),
    )
}

/// What is to happen with a session that is left.
#[derive(Clone, Copy, Debug, PartialEq, Eq, Structural)]
pub enum ExitPlan {
    /// The session is not kept.
    Discard,
    /// The user is asked whether to keep it, and under which name where
    /// `needs_name` holds.
    Ask { needs_name: bool },
    /// The session is kept under a name made of the time, in the directory for
    /// unnamed sessions.
    SaveUnnamed,
    /// The session is kept under its own name.
    SaveNamed,
}

/// The plan for leaving a session.
///
/// A session that was not changed, or that is set never to be saved, is
/// discarded. One without a setting is discarded outside the terminal, and
/// asked about at the terminal; it needs a name where it is the temporary
/// session. One that is set to be saved is saved, the temporary one under a
/// name made of the time.
pub open spec fn exit_plan(session: SessionModel, is_realtime: bool) -> ExitPlan {
    if !session.dirty || session.save_session == Some(false) {
        ExitPlan::Discard
    } else if session.save_session is None {
        if is_realtime {
            ExitPlan::Ask { needs_name: session.name == TEMP_SESSION_NAME@ }
        } else {
            ExitPlan::Discard
        }
    } else if session.name == TEMP_SESSION_NAME@ {
        ExitPlan::SaveUnnamed
    } else {
        ExitPlan::SaveNamed
    }
}

/// What is said of a name that the user proposes for a session.
#[derive(Clone, Copy, Debug, PartialEq, Eq, Structural)]
pub enum NameCheck {
    Valid,
    /// The name is empty.
    Required,
    /// The name is that of the temporary session.
    Reserved,
}

/// Judges a proposed session name, without its surrounding white space.
pub open spec fn name_check(input: Seq<char>) -> NameCheck {
    if trimmed(input).len() == 0 {
        NameCheck::Required
    } else if trimmed(input) == TEMP_SESSION_NAME@ {
        NameCheck::Reserved
    } else {
        NameCheck::Valid
    }
}

/// Judges a proposed session name.
pub fn check_session_name(input: &str) -> (check: NameCheck)
    ensures
        check == name_check(input@),
{
    let name = trim(input);
    if name.is_empty() {
        NameCheck::Required
    } else if name.eq(TEMP_SESSION_NAME) {
        NameCheck::Reserved
    } else {
        NameCheck::Valid
    }
}

/// The file name of a session: its name and `.yaml`.
pub fn session_file_name(name: &str) -> (file: String)
    ensures
        file@ == name@ + ".yaml"@,
{
    let mut file = name.to_string();
    file.append(".yaml");
    file
}

/// The name of a session that is kept without a name of its own: the time
/// stamp, a hyphen and the tag.
pub fn unnamed_session_name(timestamp: &str, tag: &str) -> (name: String)
    ensures
        name@ == timestamp@ + seq!['-'] + tag@,
{
    let mut name = timestamp.to_string();
    name.push('-');
    name.append(tag);
    name
}

impl Session {
    /// An empty session of the given name.
    pub fn new(name: &str) -> (session: Session)
        ensures
            session@ == (SessionModel {
                messages: Seq::empty(),
                name: name@,
                path: None,
                dirty: false,
                save_session: None,
            }),
    {
        let session = Session {
            messages: Vec::new(),
            name: name.to_string(),
            path: None,
            dirty: false,
            save_session: None,
        };
        assert(session.messages.deep_view() =~= Seq::empty());
        session
    }

    /// A session with the given transcript, as read from storage.
    pub fn with_messages(name: &str, messages: Vec<Message>) -> (session: Session)
        ensures
            session@ == (SessionModel {
                messages: messages.deep_view(),
                name: name@,
                path: None,
                dirty: false,
                save_session: None,
            }),
    {
        Session { messages, name: name.to_string(), path: None, dirty: false, save_session: None }
    }

    /// The name of the session.
    pub fn name(&self) -> (name: &str)
        ensures
            name@ == self@.name,
    {
        self.name.as_str()
    }

    /// Whether the session was changed since it was last saved.
    pub fn is_dirty(&self) -> (dirty: bool)
        ensures
            dirty == self@.dirty,
    {
        self.dirty
    }

    /// Whether the transcript is empty.
    pub fn is_empty(&self) -> (empty: bool)
        ensures
            empty == (self@.messages.len() == 0),
    {
        self.messages.len() == 0
    }

    /// The transcript.
    pub fn messages(&self) -> (messages: &Vec<Message>)
        ensures
            messages.deep_view() == self@.messages,
    {
        &self.messages
    }

    /// Sets whether the session is saved when it is left: `None` leaves the
    /// decision to the user.
    pub fn set_save_session(&mut self, save: Option<bool>)
        ensures
            final(self)@ == (SessionModel { save_session: save, ..old(self)@ }),
    {
        self.save_session = save;
    }

    /// Names the session after it was read from `path` under `name`. A name
    /// below `_/` is that of an unnamed session: it becomes the temporary
    /// session and forgets its path.
    pub fn adopt(&mut self, name: &str, path: &str)
        ensures
            final(self)@ == (if name@.len() >= 2 && name@[0] == '_' && name@[1] == '/' {
                SessionModel { name: TEMP_SESSION_NAME@, path: None, ..old(self)@ }
            } else {
                SessionModel { name: name@, path: Some(path@), ..old(self)@ }
            }),
    {
        let chars = to_chars(name);
        if chars.len() >= 2 && chars[0] == '_' && chars[1] == '/' {
            self.name = TEMP_SESSION_NAME.to_string();
            self.path = None;
        } else {
            self.name = name.to_string();
            self.path = Some(path.to_string());
        }
    }

    /// Records that the session was written to `session_path` under
    /// `session_name`: it is no longer dirty.
    pub fn mark_saved(&mut self, session_name: &str, session_path: &str)
        ensures
            final(self)@ == (SessionModel {
                name: session_name@,
                path: Some(session_path@),
                dirty: false,
                ..old(self)@
            }),
    {
        self.path = Some(session_path.to_string());
        self.name = session_name.to_string();
        self.dirty = false;
    }

    /// What is to happen with the session when it is left.
    pub fn exit(&self, is_realtime: bool) -> (plan: ExitPlan)
        ensures
            plan == exit_plan(self@, is_realtime),
    {
        let temporary = self.name.as_str().eq(TEMP_SESSION_NAME);
        if !self.dirty {
            return ExitPlan::Discard;
        }
        match self.save_session {
            Some(false) => ExitPlan::Discard,
            None => {
                if is_realtime {
                    ExitPlan::Ask { needs_name: temporary }
                } else {
                    ExitPlan::Discard
                }
            },
            Some(true) => {
                if temporary {
                    ExitPlan::SaveUnnamed
                } else {
                    ExitPlan::SaveNamed
                }
            },
        }
    }

    /// Commits a turn: appends the input and the answer, and marks the
    /// session dirty.
    pub fn add_message(&mut self, input: &Input, output: &str)
        ensures
            final(self)@ == (SessionModel {
                messages: appended(old(self)@.messages, input.text@, output@),
                dirty: true,
                ..old(self)@
            }),
    {
        let ghost before = self.messages.deep_view();
        let question = Message::user(input.message_content());
        let answer = Message::assistant(output);
        self.messages.push(question);
        self.messages.push(answer);
        self.dirty = true;
        assert(self.messages.deep_view() =~= appended(before, input.text@, output@));
    }

    /// The messages of the request for a turn.
    pub fn build_messages(&self, input: &Input) -> (messages: Vec<Message>)
        ensures
            messages.deep_view() == turn_messages(self@.messages, input.text@, input.regenerate),
    {
        let mut messages = clone_messages(&self.messages);
        let ghost copied = messages.deep_view();
        if input.regenerate() {
            messages.pop();
            assert(messages.deep_view() =~= turn_messages(copied, input.text@, true));
            return messages;
        }
        let question = Message::user(input.message_content());
        messages.push(question);
        assert(messages.deep_view() =~= copied.push(question@));
        messages
    }

    /// The messages of the request for a turn.
    pub fn echo_messages(&self, input: &Input) -> (messages: Vec<Message>)
        ensures
            messages.deep_view() == turn_messages(self@.messages, input.text@, input.regenerate),
    {
        self.build_messages(input)
    }

    /// Empties the transcript and marks the session dirty.
    pub fn clear_messages(&mut self)
        ensures
            final(self)@ == (SessionModel {
                messages: Seq::empty(),
                dirty: true,
                ..old(self)@
            }),
    {
        self.messages.clear();
        self.dirty = true;
        assert(self.messages.deep_view() =~= Seq::empty());
    }
}

} // verus!
