//! The messages exchanged with the chat-completion service, as plain values.

use vstd::prelude::*;

verus! {

/// A link to an image.
#[derive(Debug, Clone)]
pub struct ImageUrl {
    pub url: String,
}

/// One part of a message: text or an image, as `content_type` says.
#[derive(Debug, Clone)]
pub struct ContentBlock {
    pub content_type: String,
    pub text: Option<String>,
    pub image_url: Option<ImageUrl>,
}

/// What a message says: plain text or a list of parts.
#[derive(Debug, Clone)]
pub enum MessageContent {
    Text(String),
    Blocks(Vec<ContentBlock>),
}

/// One message of a chat.
#[derive(Debug, Clone)]
pub struct Message {
    pub role: String,
    pub content: MessageContent,
}

impl Message {
    /// The reply read from the service's answer. An answer without a role
    /// counts as the assistant's, one without content as empty text.
    pub fn reply(role: Option<String>, content: Option<String>) -> (m: Message)
        ensures
            m.role@ == (match role {
                Some(r) => r@,
                None => "assistant"@,
            }),
            m.content matches MessageContent::Text(t) && t@ == (match content {
                Some(c) => c@,
                None => ""@,
            }),
    {
        let role = match role {
            Some(r) => r,
            None => "assistant".to_string(),
        };
        let content = match content {
            Some(c) => c,
            None => "".to_string(),
        };
        Message { role, content: MessageContent::Text(content) }
    }
}

} // verus!
