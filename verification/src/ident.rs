//! Identities of members, chats and messages.

use vstd::prelude::*;

verus! {

/// Identity of a platform user.
#[derive(Clone, Copy, Debug, PartialEq, Eq, Structural, Hash)]
pub struct MemberId(pub i64);

/// Identity of a group chat.
#[derive(Clone, Copy, Debug, PartialEq, Eq, Structural, Hash)]
pub struct ChatId(pub i64);

/// Identity of a message inside a chat.
#[derive(Clone, Copy, Debug, PartialEq, Eq, Structural, Hash)]
pub struct MessageId(pub i64);

/// A message, named by its chat and its place in it.
#[derive(Clone, Copy, Debug, PartialEq, Eq, Structural, Hash)]
pub struct MessageRef {
    pub chat: ChatId,
    pub message: MessageId,
}

/// One known fact: `member` is present in `chat`.
#[derive(Clone, Copy, Debug, PartialEq, Eq, Structural, Hash)]
pub struct Membership {
    pub member: MemberId,
    pub chat: ChatId,
}

} // verus!
