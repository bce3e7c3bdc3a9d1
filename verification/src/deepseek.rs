//! Chat messages for a language model.

use crate::text::same;
use vstd::prelude::*;
use vstd::string::*;

verus! {

/// Who a chat message is from.
#[derive(Debug, Clone, Copy, PartialEq, Eq, Structural)]
pub enum ChatRole {
    System,
    User,
}

/// A chat message.
#[derive(Debug)]
pub struct ChatMessage {
    pub role: ChatRole,
    pub content: String,
}

/// The message with a role and a text, either of which may be missing: whatever is not from the
/// system is from the user.
pub fn chat_message(role: Option<&str>, content: Option<&str>) -> (r: ChatMessage)
    ensures
        r.role == if role is Some && role->0@ == "system"@ {
            ChatRole::System
        } else {
            ChatRole::User
        },
        r.content@ == match content {
            Some(text) => text@,
            None => Seq::empty(),
        },
{
    let role = match role {
        Some(name) => if same(name, "system") {
            ChatRole::System
        } else {
            ChatRole::User
        },
        None => ChatRole::User,
    };
    let content = match content {
        Some(text) => text.to_string(),
        None => String::new(),
    };
    ChatMessage { role, content }
}

/// A message is from the system exactly where its role says so, and has no text where none is
/// given.
pub proof fn law_who_a_message_is_from(role: Option<&str>, content: Option<&str>, r: ChatMessage)
    requires
        call_ensures(chat_message, (role, content), r),
    ensures
        r.role == ChatRole::System <==> role is Some && role->0@ == "system"@,
        content matches Some(text) ==> r.content@ == text@,
        content is None ==> r.content@.len() == 0,
{
}

} // verus!
