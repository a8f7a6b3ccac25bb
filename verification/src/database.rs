//! The rows of the conversation store, as plain values. The store itself is
//! the caller's; what is fixed here is how a row is made from what the store
//! hands back.

use vstd::prelude::*;
use vstd::string::StringExecFns;

verus! {

/// One message of a conversation.
#[derive(Debug, Clone)]
pub struct Message {
    pub id: i64,
    pub conversation_id: i64,
    pub role: String,
    pub content: String,
    pub created_at: String,
}

/// One conversation, with its messages once they have been attached.
#[derive(Debug, Clone)]
pub struct Conversation {
    pub id: i64,
    pub title: String,
    pub created_at: String,
    pub llm_provider: String,
    pub messages: Vec<Message>,
}

/// One model that can be chosen.
#[derive(Debug, Clone)]
pub struct LlmModel {
    pub id: i64,
    pub model_name: String,
    pub provider: String,
    pub is_default: bool,
}

impl Message {
    /// The message that was just inserted under `id`.
    pub fn new(id: i64, conversation_id: i64, role: &str, content: &str, created_at: String) -> (m:
        Message)
        ensures
            m.id == id,
            m.conversation_id == conversation_id,
            m.role@ == role@,
            m.content@ == content@,
            m.created_at == created_at,
    {
        Message {
            id,
            conversation_id,
            role: role.to_owned(),
            content: content.to_owned(),
            created_at,
        }
    }
}

impl Conversation {
    /// The conversation that was just inserted under `id`: it has no
    /// messages yet.
    pub fn new(id: i64, title: &str, created_at: String, llm_provider: &str) -> (c: Conversation)
        ensures
            c.id == id,
            c.title@ == title@,
            c.created_at == created_at,
            c.llm_provider@ == llm_provider@,
            c.messages@.len() == 0,
    {
        Conversation {
            id,
            title: title.to_owned(),
            created_at,
            llm_provider: llm_provider.to_owned(),
            messages: Vec::new(),
        }
    }

    /// Replaces the conversation's messages by those the store returned for
    /// it; nothing else changes.
    pub fn attach_messages(&mut self, messages: Vec<Message>)
        ensures
            final(self).messages == messages,
            final(self).id == old(self).id,
            final(self).title == old(self).title,
            final(self).created_at == old(self).created_at,
            final(self).llm_provider == old(self).llm_provider,
    {
        self.messages = messages;
    }
}

/// The connection string for a database file: `sqlite:` and the path.
pub fn database_url(path: &str) -> (url: String)
    ensures
        url@ == "sqlite:"@ + path@,
{
    let mut url = String::from_str("sqlite:");
    url.append(path);
    url
}

} // verus!
