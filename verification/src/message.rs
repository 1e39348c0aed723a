//! Chat messages as the session and the continuation request hold them.

use vstd::prelude::*;

verus! {

/// Who speaks in a message.
#[derive(Clone, Copy, Debug, PartialEq, Eq, Structural)]
pub enum MessageRole {
    System,
    User,
    Assistant,
    Tool,
}

/// One message of a conversation.
///
/// `tool_call_refs` is filled only on the assistant message that announces tool
/// calls; `tool_call_id` only on a tool message, which answers one such call.
#[derive(Debug)]
pub struct Message {
    pub role: MessageRole,
    pub content: String,
    pub tool_call_refs: Vec<String>,
    pub tool_call_id: Option<String>,
}

/// The mathematical value of a [`Message`].
pub ghost struct MessageModel {
    pub role: MessageRole,
    pub content: Seq<char>,
    pub tool_call_refs: Seq<Seq<char>>,
    pub tool_call_id: Option<Seq<char>>,
}

impl View for Message {
    type V = MessageModel;

    open spec fn view(&self) -> MessageModel {
        MessageModel {
            role: self.role,
            content: self.content@,
            tool_call_refs: self.tool_call_refs.deep_view(),
            tool_call_id: self.tool_call_id.deep_view(),
        }
    }
}

impl DeepView for Message {
    type V = MessageModel;

    open spec fn deep_view(&self) -> MessageModel {
        self@
    }
}

/// A plain message of the given role: no tool-call references, no tool-call id.
pub open spec fn plain_message(role: MessageRole, content: Seq<char>) -> MessageModel {
    MessageModel { role, content, tool_call_refs: Seq::empty(), tool_call_id: None }
}

/// The assistant message that announces the tool calls with the given ids.
pub open spec fn announcement_message(ids: Seq<Seq<char>>) -> MessageModel {
    MessageModel {
        role: MessageRole::Assistant,
        content: Seq::empty(),
        tool_call_refs: ids,
        tool_call_id: None,
    }
}

/// The tool message that answers the call `id` with `content`.
pub open spec fn tool_message(id: Seq<char>, content: Seq<char>) -> MessageModel {
    MessageModel {
        role: MessageRole::Tool,
        content,
        tool_call_refs: Seq::empty(),
        tool_call_id: Some(id),
    }
}

/// A copy of a list of strings.
pub fn clone_strings(items: &Vec<String>) -> (copy: Vec<String>)
    ensures
        copy.deep_view() == items.deep_view(),
{
    let mut copy: Vec<String> = Vec::new();
    let mut i: usize = 0;
    while i < items.len()
        invariant
            i <= items.len(),
            copy.len() == i,
            forall|j: int| 0 <= j < i ==> copy[j]@ == items[j]@,
        decreases items.len() - i,
    {
        copy.push(items[i].clone());
        i += 1;
    }
    assert(copy.deep_view() =~= items.deep_view());
    copy
}

impl Message {
    /// A system message.
    pub fn system(content: &str) -> (message: Message)
        ensures
            message@ == plain_message(MessageRole::System, content@),
    {
        let message = Message {
            role: MessageRole::System,
            content: content.to_string(),
            tool_call_refs: Vec::new(),
            tool_call_id: None,
        };
        assert(message.tool_call_refs.deep_view() =~= Seq::empty());
        message
    }

    /// A user message.
    pub fn user(content: &str) -> (message: Message)
        ensures
            message@ == plain_message(MessageRole::User, content@),
    {
        let message = Message {
            role: MessageRole::User,
            content: content.to_string(),
            tool_call_refs: Vec::new(),
            tool_call_id: None,
        };
        assert(message.tool_call_refs.deep_view() =~= Seq::empty());
        message
    }

    /// An assistant message that carries text.
    pub fn assistant(content: &str) -> (message: Message)
        ensures
            message@ == plain_message(MessageRole::Assistant, content@),
    {
        let message = Message {
            role: MessageRole::Assistant,
            content: content.to_string(),
            tool_call_refs: Vec::new(),
            tool_call_id: None,
        };
        assert(message.tool_call_refs.deep_view() =~= Seq::empty());
        message
    }

    /// The assistant message that announces tool calls: empty content and the
    /// ids of the calls, in order.
    pub fn announcement(ids: Vec<String>) -> (message: Message)
        ensures
            message@ == announcement_message(ids.deep_view()),
    {
        Message {
            role: MessageRole::Assistant,
            content: String::new(),
            tool_call_refs: ids,
            tool_call_id: None,
        }
    }

    /// The tool message that answers the call `id`.
    pub fn tool(id: &str, content: String) -> (message: Message)
        ensures
            message@ == tool_message(id@, content@),
    {
        let message = Message {
            role: MessageRole::Tool,
            content,
            tool_call_refs: Vec::new(),
            tool_call_id: Some(id.to_string()),
        };
        assert(message.tool_call_refs.deep_view() =~= Seq::empty());
        message
    }
}

impl Clone for Message {
    fn clone(&self) -> (copy: Message)
        ensures
            copy@ == self@,
    {
        Message {
            role: self.role,
            content: self.content.clone(),
            tool_call_refs: clone_strings(&self.tool_call_refs),
            tool_call_id: self.tool_call_id.clone(),
        }
    }
}

/// A copy of a list of messages.
pub fn clone_messages(items: &Vec<Message>) -> (copy: Vec<Message>)
    ensures
        copy.deep_view() == items.deep_view(),
{
    let mut copy: Vec<Message> = Vec::new();
    let mut i: usize = 0;
    while i < items.len()
        invariant
            i <= items.len(),
            copy.len() == i,
            forall|j: int| 0 <= j < i ==> copy[j]@ == items[j]@,
        decreases items.len() - i,
    {
        copy.push(items[i].clone());
        i += 1;
    }
    assert(copy.deep_view() =~= items.deep_view());
    copy
}

} // verus!
