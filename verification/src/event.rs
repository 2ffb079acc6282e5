//! What the messaging platform reports, already parsed.

use crate::ident::{ChatId, MemberId, MessageRef};
use vstd::prelude::*;

verus! {

/// The chat that an event came from.
#[derive(Clone, Copy, Debug, PartialEq, Eq, Structural)]
pub enum ChatRef {
    /// A chat of known identity.
    Id(ChatId),
    /// A reference that names no concrete chat identity.
    Unresolved,
}

/// A member who joined a chat.
#[derive(Debug, PartialEq, Eq)]
pub struct Newcomer {
    pub id: MemberId,
    /// The name by which the member is greeted.
    pub name: String,
}

/// The standing of the bot itself in a chat.
#[derive(Clone, Copy, Debug, PartialEq, Eq, Structural)]
pub enum BotStatus {
    Owner,
    Administrator,
    Member,
    Restricted,
    Left,
    Removed,
}

impl BotStatus {
    /// Whether the bot takes part in the chat with this standing.
    pub open spec fn active(self) -> bool {
        self == BotStatus::Owner || self == BotStatus::Administrator || self == BotStatus::Member
    }

    /// Whether the bot is out of the chat with this standing.
    pub open spec fn gone(self) -> bool {
        self == BotStatus::Left || self == BotStatus::Removed
    }

    /// Whether the bot takes part in the chat with this standing.
    pub fn is_active(self) -> (yes: bool)
        ensures
            yes == self.active(),
    {
        match self {
            BotStatus::Owner | BotStatus::Administrator | BotStatus::Member => true,
            _ => false,
        }
    }

    /// Whether the bot is out of the chat with this standing.
    pub fn is_gone(self) -> (yes: bool)
        ensures
            yes == self.gone(),
    {
        match self {
            BotStatus::Left | BotStatus::Removed => true,
            _ => false,
        }
    }
}

/// One event, of one of the kinds that the bot tells apart.
#[allow(inconsistent_fields)]
#[derive(Debug, PartialEq, Eq)]
pub enum Event {
    /// A member wrote `text` in a chat.
    Text { chat: ChatRef, sender: MemberId, text: String },
    /// One or more members were added to a chat.
    NewMembers { chat: ChatRef, members: Vec<Newcomer> },
    /// A member left a chat.
    MemberLeft { chat: ChatRef, member: MemberId },
    /// A member pressed an inline button. `tag` is what the button sent back, `prompt` the
    /// message that carried it; either may be missing.
    Callback { sender: MemberId, tag: Option<String>, prompt: Option<MessageRef> },
    /// The standing of the bot itself in a chat has changed.
    BotMembership { chat: ChatId, status: BotStatus },
    /// Anything else.
    Other,
}

/// The names of `members`, in their order.
pub open spec fn names_of(members: Seq<Newcomer>) -> Seq<Seq<char>> {
    Seq::new(members.len(), |i: int| members[i].name@)
}

/// The identities of `members`, in their order.
pub open spec fn ids_of(members: Seq<Newcomer>) -> Seq<MemberId> {
    Seq::new(members.len(), |i: int| members[i].id)
}

} // verus!
