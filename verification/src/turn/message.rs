//! Conversation messages.

use vstd::prelude::*;
use vstd::string::*;

verus! {

/// One message of a conversation.
pub struct ChatMessage {
    pub role: String,
    pub content: String,
}

/// The model of a message.
pub struct MessageView {
    pub role: Seq<char>,
    pub content: Seq<char>,
}

impl View for ChatMessage {
    type V = MessageView;

    open spec fn view(&self) -> MessageView {
        MessageView { role: self.role@, content: self.content@ }
    }
}

/// The model of a conversation.
pub open spec fn conversation(messages: Seq<ChatMessage>) -> Seq<MessageView> {
    messages.map_values(|m: ChatMessage| m@)
}

impl ChatMessage {
    /// A message with the given role and content.
    pub fn new(role: &str, content: &str) -> (m: ChatMessage)
        ensures
            m@ == (MessageView { role: role@, content: content@ }),
    {
        ChatMessage { role: role.to_owned(), content: content.to_owned() }
    }

    /// A message of the system.
    pub fn system(content: &str) -> (m: ChatMessage)
        ensures
            m@ == (MessageView { role: "system"@, content: content@ }),
    {
        ChatMessage::new("system", content)
    }

    /// A message of the user.
    pub fn user(content: &str) -> (m: ChatMessage)
        ensures
            m@ == (MessageView { role: "user"@, content: content@ }),
    {
        ChatMessage::new("user", content)
    }

    /// A message of the assistant.
    pub fn assistant(content: &str) -> (m: ChatMessage)
        ensures
            m@ == (MessageView { role: "assistant"@, content: content@ }),
    {
        ChatMessage::new("assistant", content)
    }

    /// A message that carries the result of a tool.
    pub fn tool(content: &str) -> (m: ChatMessage)
        ensures
            m@ == (MessageView { role: "tool"@, content: content@ }),
    {
        ChatMessage::new("tool", content)
    }
}

} // verus!
