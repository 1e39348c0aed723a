//! The parameters of the inference endpoints and the prompt that a list of
//! chat messages is turned into.

use vstd::prelude::*;

verus! {

/// The parameters of an embeddings request.
#[derive(Debug, Clone)]
pub struct EmbeddingsParams {
    pub input: String,
    pub model: String,
    pub encoding_format: String,
    pub user: String,
}

impl Default for EmbeddingsParams {
    fn default() -> (params: EmbeddingsParams)
        ensures
            params.input@ == Seq::<char>::empty(),
            params.model@ == Seq::<char>::empty(),
            params.encoding_format@ == Seq::<char>::empty(),
            params.user@ == Seq::<char>::empty(),
    {
        EmbeddingsParams {
            input: String::new(),
            model: String::new(),
            encoding_format: String::new(),
            user: String::new(),
        }
    }
}

/// Who wrote a message of an inference request.
#[allow(non_camel_case_types)]
#[derive(Clone, Copy, Debug, PartialEq, Eq, Structural)]
pub enum Role {
    system,
    user,
    assistant,
}

/// One message of an inference request.
#[derive(Debug)]
pub struct Messages {
    pub role: Role,
    pub content: String,
}

/// The mathematical value of a [`Messages`].
pub ghost struct MessagesModel {
    pub role: Role,
    pub content: Seq<char>,
}

impl View for Messages {
    type V = MessagesModel;

    open spec fn view(&self) -> MessagesModel {
        MessagesModel { role: self.role, content: self.content@ }
    }
}

impl DeepView for Messages {
    type V = MessagesModel;

    open spec fn deep_view(&self) -> MessagesModel {
        self@
    }
}

/// The name of a role as the prompt format writes it.
pub open spec fn role_name(role: Role) -> Seq<char> {
    match role {
        Role::system => "system"@,
        Role::user => "user"@,
        Role::assistant => "assistant"@,
    }
}

/// One message in the prompt format: the start mark, the role on a line of
/// its own, the content, the end mark and a line break.
pub open spec fn framed(message: MessagesModel) -> Seq<char> {
    "<|im_start|>"@ + role_name(message.role) + seq!['\n'] + message.content + "<|im_end|>\n"@
}

/// The first `count` messages in the prompt format, one after the other.
pub open spec fn framed_all(messages: Seq<MessagesModel>, count: nat) -> Seq<char>
    decreases count,
{
    if count == 0 || count > messages.len() {
        Seq::empty()
    } else {
        framed_all(messages, (count - 1) as nat) + framed(messages[count - 1])
    }
}

/// The prompt for a list of messages: every message framed, then the opening
/// of the assistant's answer.
pub open spec fn prompt_of(messages: Seq<MessagesModel>) -> Seq<char> {
    framed_all(messages, messages.len()) + "<|im_start|>assistant\n"@
}

/// What an inference run is asked for. The sampling parameters, which are
/// numbers with a fraction, are kept by the caller.
#[derive(Debug)]
pub struct ChatInstance {
    pub promote: String,
    pub model: String,
    pub seed: u64,
    pub repeat_last_n: usize,
}

impl Default for ChatInstance {
    fn default() -> (instance: ChatInstance)
        ensures
            instance.promote@ == Seq::<char>::empty(),
            instance.model@ == Seq::<char>::empty(),
            instance.seed == 0,
            instance.repeat_last_n == 0,
    {
        ChatInstance { promote: String::new(), model: String::new(), seed: 0, repeat_last_n: 0 }
    }
}

/// The parameters of a chat request as they arrive over HTTP.
#[derive(Debug)]
pub struct ChatWebParams {
    pub messages: Option<Vec<Messages>>,
    pub model: Option<String>,
    pub seed: Option<u64>,
}

impl ChatWebParams {
    /// Writes a list of messages in the prompt format.
    pub fn messages_template(msg_list: &Vec<Messages>) -> (history: String)
        ensures
            history@ == prompt_of(msg_list.deep_view()),
    {
        let ghost all = msg_list.deep_view();
        let mut history = String::new();
        let mut i: usize = 0;
        while i < msg_list.len()
            invariant
                i <= msg_list.len(),
                all == msg_list.deep_view(),
                history@ == framed_all(all, i as nat),
            decreases msg_list.len() - i,
        {
            let msg = &msg_list[i];
            let ghost before = history@;
            history.append("<|im_start|>");
            match msg.role {
                Role::system => {
                    history.append("system");
                },
                Role::user => {
                    history.append("user");
                },
                Role::assistant => {
                    history.append("assistant");
                },
            }
            history.push('\n');
            history.append(msg.content.as_str());
            history.append("<|im_end|>\n");
            assert(history@ =~= before + framed(all[i as int]));
            i += 1;
        }
        history.append("<|im_start|>assistant\n");
        history
    }

    /// Checks the parameters and turns them into an inference run: the
    /// messages become the prompt, the model is taken over, and the seed is 1
    /// where none is given. Messages are asked for first, then the model.
    pub fn to_instance(&self) -> (outcome: Result<ChatInstance, String>)
        ensures
            self.messages is None ==> (outcome matches Err(reason) && reason@
                == "promote should provide!"@),
            self.messages is Some && self.model is None ==> (outcome matches Err(reason)
                && reason@ == "model should provide!"@),
            self.messages is Some && self.model is Some ==> (outcome matches Ok(instance)
                && instance.promote@ == prompt_of(self.messages->Some_0.deep_view())
                && instance.model@ == self.model->Some_0@ && instance.seed == (match self.seed {
                Some(value) => value,
                None => 1u64,
            }) && instance.repeat_last_n == 0),
    {
        let mut instance = ChatInstance::default();
        match &self.messages {
            Some(list) => {
                instance.promote = Self::messages_template(list);
            },
            None => {
                return Err("promote should provide!".to_string());
            },
        }
        match &self.model {
            Some(name) => {
                instance.model = name.clone();
            },
            None => {
                return Err("model should provide!".to_string());
            },
        }
        instance.seed = match self.seed {
            Some(value) => value,
            None => 1,
        };
        Ok(instance)
    }
}

} // verus!
