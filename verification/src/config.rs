//! The state of the front end between turns: the endpoint, the current agent
//! and session, and the last exchange.

use crate::agent::Agent;
use crate::common::{WorkingMode, LEFT_PROMPT, RIGHT_PROMPT, TEMP_SESSION_NAME};
use crate::highlighter::{pad_right, padded};
use crate::message::{plain_message, Message, MessageModel, MessageRole};
use crate::prompt::{render_model, render_prompt};
use crate::rag::Rag;
use crate::session::{appended, exit_plan, turn_messages, ExitPlan, Input, Session, SessionModel};
use crate::text::{
    decimal, decimal_text, find_char, find_pair, first_index_from, from_chars, lookup, pair_map,
    to_chars,
};
use vstd::prelude::*;

verus! {

/// The port that the server listens on where none is configured.
pub const DEFAULT_HTTP_PORT: u16 = 8848;

/// Why a request on the configuration is refused.
#[derive(Clone, Copy, Debug, PartialEq, Eq, Structural)]
pub enum ConfigError {
    /// There is no current session.
    NoSession,
    /// A session is current already.
    AlreadyInSession,
    /// An agent is current already.
    AlreadyInAgent,
    /// The configuration does not know the agent.
    NoSuchAgent,
}

impl ConfigError {
    /// The error as a sentence.
    pub fn message(&self) -> (text: String)
        ensures
            text@ == match self {
                ConfigError::NoSession => "No session"@,
                ConfigError::AlreadyInSession =>
                    "Already in a session, please run '.exit session' first to exit the current session."@,
                ConfigError::AlreadyInAgent =>
                    "Already in a agent, please run '.exit agent' first to exit the current agent."@,
                ConfigError::NoSuchAgent => "No this agent"@,
            },
    {
        match self {
            ConfigError::NoSession => "No session".to_string(),
            ConfigError::AlreadyInSession =>
                "Already in a session, please run '.exit session' first to exit the current session.".to_string(),
            ConfigError::AlreadyInAgent =>
                "Already in a agent, please run '.exit agent' first to exit the current agent.".to_string(),
            ConfigError::NoSuchAgent => "No this agent".to_string(),
        }
    }
}

/// Which session is to be entered.
#[derive(Debug)]
pub enum SessionChoice {
    /// The temporary session: what is left of an earlier one is removed.
    Temporary,
    /// The session of the given name: read from its file where that exists,
    /// else begun empty.
    Named(String),
}

/// The configuration and the current state of the front end. The sampling
/// parameters are kept as the text that the prompt shows, and left out where
/// they are unset or zero.
#[derive(Debug)]
pub struct CConfig {
    pub api_base: String,
    pub api_key: Option<String>,
    pub http_port: Option<u16>,
    pub model: String,
    pub temperature: Option<String>,
    pub top_p: Option<String>,
    pub agents: Vec<(String, String)>,
    pub tools: Vec<(String, String)>,
    pub rags: Vec<(String, String)>,
    pub agent: Option<Agent>,
    pub rag: Option<Rag>,
    pub session: Option<Session>,
    pub last_message: Option<(Input, String)>,
    pub working_mode: WorkingMode,
}

/// The address that the server listens on.
pub open spec fn http_addr(port: Option<u16>) -> Seq<char> {
    "0.0.0.0:"@ + decimal_text(
        match port {
            Some(port) => port as nat,
            None => DEFAULT_HTTP_PORT as nat,
        },
    )
}

/// One line of the system information: the name in a column of 24
/// characters, the value, and a line break.
pub open spec fn info_line(name: Seq<char>, value: Seq<char>) -> Seq<char> {
    padded(name, 24) + value + seq!['\n']
}

/// The path of a session's file below the directory of the sessions, as its
/// components: a name with a `/` lies in the directory before the first `/`.
pub open spec fn session_path(name: Seq<char>) -> Seq<Seq<char>> {
    let slash = first_index_from(name, 0, '/');
    if slash < 0 || slash >= name.len() {
        seq![name + ".yaml"@]
    } else {
        seq![name.subrange(0, slash), name.subrange(slash + 1, name.len() as int) + ".yaml"@]
    }
}

/// The names of the colours and their escape sequences.
pub open spec fn colour_pairs() -> Seq<(Seq<char>, Seq<char>)> {
    seq![
        ("color.reset"@, "\u{1b}[0m"@),
        ("color.black"@, "\u{1b}[30m"@),
        ("color.dark_gray"@, "\u{1b}[90m"@),
        ("color.red"@, "\u{1b}[31m"@),
        ("color.light_red"@, "\u{1b}[91m"@),
        ("color.green"@, "\u{1b}[32m"@),
        ("color.light_green"@, "\u{1b}[92m"@),
        ("color.yellow"@, "\u{1b}[33m"@),
        ("color.light_yellow"@, "\u{1b}[93m"@),
        ("color.blue"@, "\u{1b}[34m"@),
        ("color.light_blue"@, "\u{1b}[94m"@),
        ("color.purple"@, "\u{1b}[35m"@),
        ("color.light_purple"@, "\u{1b}[95m"@),
        ("color.magenta"@, "\u{1b}[35m"@),
        ("color.light_magenta"@, "\u{1b}[95m"@),
        ("color.cyan"@, "\u{1b}[36m"@),
        ("color.light_cyan"@, "\u{1b}[96m"@),
        ("color.white"@, "\u{1b}[37m"@),
        ("color.light_gray"@, "\u{1b}[97m"@),
    ]
}

/// A pair for an optional value: nothing where the value is absent.
pub open spec fn optional_pair(name: Seq<char>, value: Option<Seq<char>>) -> Seq<
    (Seq<char>, Seq<char>),
> {
    match value {
        Some(value) => seq![(name, value)],
        None => Seq::empty(),
    }
}

/// The text of a truth value.
pub open spec fn bool_text(value: bool) -> Seq<char> {
    if value {
        "true"@
    } else {
        "false"@
    }
}

/// The variables of the prompt templates: the model, the sampling parameters
/// that are set, the session with its name and whether it is dirty, the
/// retrieval store's embedding model, the agent, and the colours.
pub open spec fn prompt_context(
    model: Seq<char>,
    temperature: Option<Seq<char>>,
    top_p: Option<Seq<char>>,
    session: Option<(Seq<char>, bool)>,
    rag: Option<Seq<char>>,
    agent: Option<Seq<char>>,
) -> Seq<(Seq<char>, Seq<char>)> {
    seq![("model"@, model)] + optional_pair("temperature"@, temperature) + optional_pair(
        "top_p"@,
        top_p,
    ) + (match session {
        Some((name, dirty)) => seq![("session"@, name), ("dirty"@, bool_text(dirty))],
        None => Seq::empty(),
    }) + optional_pair("rag"@, rag) + optional_pair("agent"@, agent) + colour_pairs()
}

fn push_pair(pairs: &mut Vec<(String, String)>, name: &str, value: &str)
    ensures
        final(pairs).deep_view() == old(pairs).deep_view().push((name@, value@)),
{
    let ghost before = pairs.deep_view();
    pairs.push((name.to_string(), value.to_string()));
    assert(pairs.deep_view() =~= before.push((name@, value@)));
}

fn push_optional(pairs: &mut Vec<(String, String)>, name: &str, value: &Option<String>)
    ensures
        final(pairs).deep_view() == old(pairs).deep_view() + optional_pair(
            name@,
            value.deep_view(),
        ),
{
    let ghost before = pairs.deep_view();
    match value {
        Some(value) => {
            push_pair(pairs, name, value.as_str());
            assert(pairs.deep_view() =~= before + seq![(name@, value@)]);
        },
        None => {
            assert(pairs.deep_view() =~= before + Seq::<(Seq<char>, Seq<char>)>::empty());
        },
    }
}

fn push_colours(pairs: &mut Vec<(String, String)>)
    ensures
        final(pairs).deep_view() == old(pairs).deep_view() + colour_pairs(),
{
    let ghost before = pairs.deep_view();
    push_pair(pairs, "color.reset", "\u{1b}[0m");
    push_pair(pairs, "color.black", "\u{1b}[30m");
    push_pair(pairs, "color.dark_gray", "\u{1b}[90m");
    push_pair(pairs, "color.red", "\u{1b}[31m");
    push_pair(pairs, "color.light_red", "\u{1b}[91m");
    push_pair(pairs, "color.green", "\u{1b}[32m");
    push_pair(pairs, "color.light_green", "\u{1b}[92m");
    push_pair(pairs, "color.yellow", "\u{1b}[33m");
    push_pair(pairs, "color.light_yellow", "\u{1b}[93m");
    push_pair(pairs, "color.blue", "\u{1b}[34m");
    push_pair(pairs, "color.light_blue", "\u{1b}[94m");
    push_pair(pairs, "color.purple", "\u{1b}[35m");
    push_pair(pairs, "color.light_purple", "\u{1b}[95m");
    push_pair(pairs, "color.magenta", "\u{1b}[35m");
    push_pair(pairs, "color.light_magenta", "\u{1b}[95m");
    push_pair(pairs, "color.cyan", "\u{1b}[36m");
    push_pair(pairs, "color.light_cyan", "\u{1b}[96m");
    push_pair(pairs, "color.white", "\u{1b}[37m");
    push_pair(pairs, "color.light_gray", "\u{1b}[97m");
    assert(pairs.deep_view() =~= before + colour_pairs());
}

impl CConfig {
    /// A configuration for the given endpoint and model, with nothing else
    /// set.
    pub fn new(api_base: &str, model: &str) -> (config: CConfig)
        ensures
            config.api_base@ == api_base@,
            config.model@ == model@,
            config.api_key is None,
            config.http_port is None,
            config.temperature is None,
            config.top_p is None,
            config.agent is None,
            config.rag is None,
            config.session is None,
            config.last_message is None,
            config.working_mode == WorkingMode::Realtime,
            config.agents@.len() == 0,
            config.tools@.len() == 0,
            config.rags@.len() == 0,
    {
        CConfig {
            api_base: api_base.to_string(),
            api_key: None,
            http_port: None,
            model: model.to_string(),
            temperature: None,
            top_p: None,
            agents: Vec::new(),
            tools: Vec::new(),
            rags: Vec::new(),
            agent: None,
            rag: None,
            session: None,
            last_message: None,
            working_mode: WorkingMode::Realtime,
        }
    }

    /// The address that the server listens on: every interface, and the
    /// configured port or 8848.
    pub fn get_http_addr(&self) -> (addr: String)
        ensures
            addr@ == http_addr(self.http_port),
    {
        let port = match self.http_port {
            Some(port) => port,
            None => DEFAULT_HTTP_PORT,
        };
        let mut addr = "0.0.0.0:".to_string();
        addr.append(decimal(port as u64).as_str());
        addr
    }

    /// The base address of the endpoint.
    pub fn get_api_base(&self) -> (base: String)
        ensures
            base@ == self.api_base@,
    {
        self.api_base.clone()
    }

    /// The key for the endpoint, empty where none is configured.
    pub fn get_api_key(&self) -> (key: String)
        ensures
            key@ == match self.api_key {
                Some(key) => key@,
                None => Seq::<char>::empty(),
            },
    {
        match &self.api_key {
            Some(key) => key.clone(),
            None => String::new(),
        }
    }

    /// The system information: the endpoint and the model, one per line.
    pub fn sysinfo(&self) -> (output: String)
        ensures
            output@ == info_line("api_base"@, self.api_base@) + info_line("model"@, self.model@),
    {
        let mut output = pad_right("api_base", 24);
        output.append(self.api_base.as_str());
        output.push('\n');
        output.append(pad_right("model", 24).as_str());
        output.append(self.model.as_str());
        output.push('\n');
        assert(output@ =~= info_line("api_base"@, self.api_base@) + info_line(
            "model"@,
            self.model@,
        ));
        output
    }

    /// The path of a session's file below the directory of the sessions, as
    /// its components.
    pub fn session_file(&self, name: &str) -> (path: Vec<String>)
        ensures
            path.deep_view() == session_path(name@),
    {
        let chars = to_chars(name);
        let slash = find_char(&chars, 0, '/');
        let mut path: Vec<String> = Vec::new();
        if slash >= chars.len() {
            let mut file = name.to_string();
            file.append(".yaml");
            path.push(file);
            assert(path.deep_view() =~= session_path(name@));
        } else {
            let dir = from_chars(&chars, 0, slash);
            let mut file = from_chars(&chars, slash + 1, chars.len());
            file.append(".yaml");
            path.push(dir);
            path.push(file);
            assert(path.deep_view() =~= session_path(name@));
        }
        path
    }

    /// The current session as the prompt shows it: its name and whether it is
    /// dirty.
    pub open spec fn session_shown(&self) -> Option<(Seq<char>, bool)> {
        match self.session {
            Some(session) => Some((session@.name, session@.dirty)),
            None => None,
        }
    }

    /// The embedding model of the current retrieval store.
    pub open spec fn rag_shown(&self) -> Option<Seq<char>> {
        match self.rag {
            Some(rag) => Some(rag.rag_embedding_model@),
            None => None,
        }
    }

    /// The name of the current agent.
    pub open spec fn agent_shown(&self) -> Option<Seq<char>> {
        match self.agent {
            Some(agent) => Some(agent.name@),
            None => None,
        }
    }

    /// The variables of the prompt templates.
    pub fn generate_prompt_context(&self) -> (output: Vec<(String, String)>)
        ensures
            output.deep_view() == prompt_context(
                self.model@,
                self.temperature.deep_view(),
                self.top_p.deep_view(),
                self.session_shown(),
                self.rag_shown(),
                self.agent_shown(),
            ),
    {
        let mut output: Vec<(String, String)> = Vec::new();
        assert(output.deep_view() =~= Seq::empty());
        push_pair(&mut output, "model", self.model.as_str());
        assert(output.deep_view() =~= seq![("model"@, self.model@)]);
        push_optional(&mut output, "temperature", &self.temperature);
        push_optional(&mut output, "top_p", &self.top_p);
        let ghost before = output.deep_view();
        match &self.session {
            Some(session) => {
                push_pair(&mut output, "session", session.name());
                let dirty = if session.is_dirty() {
                    "true"
                } else {
                    "false"
                };
                push_pair(&mut output, "dirty", dirty);
                assert(output.deep_view() =~= before + seq![
                    ("session"@, session@.name),
                    ("dirty"@, bool_text(session@.dirty)),
                ]);
            },
            None => {
                assert(output.deep_view() =~= before + Seq::<(Seq<char>, Seq<char>)>::empty());
            },
        }
        match &self.rag {
            Some(rag) => {
                let ghost so_far = output.deep_view();
                push_pair(&mut output, "rag", rag.rag_embedding_model.as_str());
                assert(output.deep_view() =~= so_far + optional_pair("rag"@, self.rag_shown()));
            },
            None => {
                assert(output.deep_view() =~= output.deep_view() + optional_pair(
                    "rag"@,
                    self.rag_shown(),
                ));
            },
        }
        match &self.agent {
            Some(agent) => {
                let ghost so_far = output.deep_view();
                push_pair(&mut output, "agent", agent.name.as_str());
                assert(output.deep_view() =~= so_far + optional_pair(
                    "agent"@,
                    self.agent_shown(),
                ));
            },
            None => {
                assert(output.deep_view() =~= output.deep_view() + optional_pair(
                    "agent"@,
                    self.agent_shown(),
                ));
            },
        }
        push_colours(&mut output);
        output
    }

    /// The left prompt.
    pub fn render_prompt_left(&self) -> (prompt: String)
        ensures
            prompt@ == render_model(
                LEFT_PROMPT@,
                pair_map(
                    prompt_context(
                        self.model@,
                        self.temperature.deep_view(),
                        self.top_p.deep_view(),
                        self.session_shown(),
                        self.rag_shown(),
                        self.agent_shown(),
                    ),
                ),
            ),
    {
        let variables = self.generate_prompt_context();
        render_prompt(LEFT_PROMPT, &variables)
    }

    /// The right prompt.
    pub fn render_prompt_right(&self) -> (prompt: String)
        ensures
            prompt@ == render_model(
                RIGHT_PROMPT@,
                pair_map(
                    prompt_context(
                        self.model@,
                        self.temperature.deep_view(),
                        self.top_p.deep_view(),
                        self.session_shown(),
                        self.rag_shown(),
                        self.agent_shown(),
                    ),
                ),
            ),
    {
        let variables = self.generate_prompt_context();
        render_prompt(RIGHT_PROMPT, &variables)
    }

    /// Remembers the input of the turn that begins, with no answer yet.
    pub fn before_chat_completion(&mut self, input: &Input)
        ensures
            final(self).last_message matches Some((kept, answer)) && kept.text@ == input.text@
                && kept.regenerate == input.regenerate && answer@.len() == 0,
            final(self).session == old(self).session,
            final(self).agent == old(self).agent,
            final(self).rag == old(self).rag,
    {
        self.last_message = Some((input.clone(), String::new()));
    }

    /// Commits a turn: remembers the exchange and appends it to the current
    /// session, if there is one.
    pub fn after_chat_completion(&mut self, input: &Input, output: &str)
        ensures
            final(self).last_message matches Some((kept, answer)) && kept.text@ == input.text@
                && kept.regenerate == input.regenerate && answer@ == output@,
            old(self).session is None ==> final(self).session is None,
            old(self).session matches Some(before) ==> final(self).session matches Some(after)
                && after@ == (SessionModel {
                messages: appended(before@.messages, input.text@, output@),
                dirty: true,
                ..before@
            }),
    {
        self.last_message = Some((input.clone(), output.to_string()));
        self.save_message(input, output);
    }

    /// Appends an exchange to the current session, if there is one.
    pub fn save_message(&mut self, input: &Input, output: &str)
        ensures
            final(self).last_message == old(self).last_message,
            old(self).session is None ==> final(self).session is None,
            old(self).session matches Some(before) ==> final(self).session matches Some(after)
                && after@ == (SessionModel {
                messages: appended(before@.messages, input.text@, output@),
                dirty: true,
                ..before@
            }),
    {
        match &mut self.session {
            Some(session) => {
                session.add_message(input, output);
            },
            None => {},
        }
    }

    /// The transcript of the current session, empty where there is none.
    pub open spec fn transcript(&self) -> Seq<MessageModel> {
        match self.session {
            Some(session) => session@.messages,
            None => Seq::empty(),
        }
    }

    /// The messages of the request for a turn: those that the current session
    /// builds, or the input alone where there is no session.
    pub fn echo_message(&self, input: &Input) -> (messages: Vec<Message>)
        ensures
            messages.deep_view() == match self.session {
                Some(session) => turn_messages(
                    session@.messages,
                    input.text@,
                    input.regenerate,
                ),
                None => seq![plain_message(MessageRole::User, input.text@)],
            },
    {
        match &self.session {
            Some(session) => session.echo_messages(input),
            None => {
                let mut messages: Vec<Message> = Vec::new();
                let question = Message::user(input.message_content());
                messages.push(question);
                assert(messages.deep_view() =~= seq![question@]);
                messages
            },
        }
    }

    /// Leaves the current session: hands it out with the plan for keeping it,
    /// and forgets the last exchange. Nothing happens where there is no
    /// session.
    pub fn exit_session(&mut self) -> (left: Option<(Session, ExitPlan)>)
        ensures
            final(self).session is None,
            old(self).session is None ==> left is None && final(self).last_message == old(
                self,
            ).last_message,
            old(self).session matches Some(session) ==> left matches Some((handed, plan))
                && handed == session && plan == exit_plan(
                session@,
                old(self).working_mode == WorkingMode::Realtime,
            ) && final(self).last_message is None,
            final(self).agent == old(self).agent,
            final(self).rag == old(self).rag,
    {
        match self.session.take() {
            Some(session) => {
                let plan = session.exit(self.working_mode.is_realtime());
                self.last_message = None;
                Some((session, plan))
            },
            None => None,
        }
    }

    /// The name under which the current session is to be saved: the given
    /// one, or the empty name; an error where there is no session.
    pub fn save_session(&self, name: Option<&str>) -> (session_name: Result<String, ConfigError>)
        ensures
            self.session is None ==> session_name == Err::<String, ConfigError>(
                ConfigError::NoSession,
            ),
            self.session is Some ==> (session_name matches Ok(kept) && kept@ == match name {
                Some(name) => name@,
                None => Seq::<char>::empty(),
            }),
    {
        match &self.session {
            Some(_) => match name {
                Some(name) => Ok(name.to_string()),
                None => Ok(String::new()),
            },
            None => Err(ConfigError::NoSession),
        }
    }

    /// Which session is to be entered for a name: the temporary one where no
    /// name or the temporary name is given; an error where a session is
    /// current already.
    pub fn use_session(&self, session_name: Option<&str>) -> (choice: Result<
        SessionChoice,
        ConfigError,
    >)
        ensures
            self.session is Some ==> choice == Err::<SessionChoice, ConfigError>(
                ConfigError::AlreadyInSession,
            ),
            self.session is None ==> match session_name {
                None => choice matches Ok(SessionChoice::Temporary),
                Some(name) => if name@ == TEMP_SESSION_NAME@ {
                    choice matches Ok(SessionChoice::Temporary)
                } else {
                    choice matches Ok(SessionChoice::Named(kept)) && kept@ == name@
                },
            },
    {
        if self.session.is_some() {
            return Err(ConfigError::AlreadyInSession);
        }
        match session_name {
            None => Ok(SessionChoice::Temporary),
            Some(name) => {
                if name.eq(TEMP_SESSION_NAME) {
                    Ok(SessionChoice::Temporary)
                } else {
                    Ok(SessionChoice::Named(name.to_string()))
                }
            },
        }
    }

    /// Erases the messages of the current session and forgets the last
    /// exchange; an error, and no change, where there is no session.
    pub fn empty_session(&mut self) -> (outcome: Result<(), ConfigError>)
        ensures
            old(self).session is None ==> outcome == Err::<(), ConfigError>(ConfigError::NoSession)
                && final(self).session is None && final(self).last_message == old(
                self,
            ).last_message,
            old(self).session is Some ==> outcome is Ok && final(self).last_message is None,
            old(self).session matches Some(before) ==> (final(self).session matches Some(after)
                && after@ == (SessionModel {
                messages: Seq::empty(),
                dirty: true,
                ..before@
            })),
    {
        match &mut self.session {
            Some(session) => {
                session.clear_messages();
            },
            None => {
                return Err(ConfigError::NoSession);
            },
        }
        self.last_message = None;
        Ok(())
    }

    /// The file of the agent that is to be used; an error where an agent is
    /// current already or the configuration does not know the name.
    pub fn use_agent(&self, agent_name: &str) -> (path: Result<String, ConfigError>)
        ensures
            self.agent is Some ==> path == Err::<String, ConfigError>(ConfigError::AlreadyInAgent),
            self.agent is None ==> match lookup(pair_map(self.agents.deep_view()), agent_name@) {
                Some(file) => path matches Ok(kept) && kept@ == file,
                None => path == Err::<String, ConfigError>(ConfigError::NoSuchAgent),
            },
    {
        if self.agent.is_some() {
            return Err(ConfigError::AlreadyInAgent);
        }
        match find_pair(&self.agents, agent_name) {
            Some(file) => Ok(file.clone()),
            None => Err(ConfigError::NoSuchAgent),
        }
    }

    /// Leaves the current agent: the session is left first; where there was
    /// an agent, its retrieval store and the last exchange are forgotten too.
    pub fn exit_agent(&mut self) -> (left: Option<(Session, ExitPlan)>)
        ensures
            final(self).session is None,
            final(self).agent is None,
            old(self).agent is Some ==> final(self).rag is None && final(self).last_message
                is None,
            old(self).agent is None ==> final(self).rag == old(self).rag,
            old(self).session is None ==> left is None,
            old(self).session matches Some(session) ==> left matches Some((handed, plan))
                && handed == session && plan == exit_plan(
                session@,
                old(self).working_mode == WorkingMode::Realtime,
            ),
    {
        let left = self.exit_session();
        if self.agent.take().is_some() {
            self.rag = None;
            self.last_message = None;
        }
        left
    }
}

} // verus!
