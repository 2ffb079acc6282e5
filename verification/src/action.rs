//! What the bot asks the messaging platform to do.

use crate::ident::{ChatId, MemberId, MessageRef};
use crate::wording::Phrase;
use vstd::prelude::*;

verus! {

/// The keyboards that a text can carry.
#[derive(Clone, Copy, Debug, PartialEq, Eq, Structural)]
pub enum Keyboard {
    /// A persistent keyboard of one button, labelled with the request for a turn.
    RequestTurn,
    /// Two inline buttons, one per row: first the confirming one, then the cancelling one.
    /// Each sends its tag back when pressed.
    Confirmation,
}

/// One button of a keyboard. A button with a tag sends the tag back when pressed; one
/// without sends its label as a text.
#[derive(Clone, Copy, Debug, PartialEq, Eq, Structural)]
pub struct Button {
    pub label: Phrase,
    pub tag: Option<Phrase>,
}

impl Keyboard {
    /// The buttons of the keyboard, one per row, top row first.
    pub open spec fn layout(self) -> Seq<Button> {
        match self {
            Keyboard::RequestTurn => seq![Button { label: Phrase::TurnLabel, tag: None }],
            Keyboard::Confirmation => seq![
                Button { label: Phrase::ConfirmLabel, tag: Some(Phrase::ConfirmTag) },
                Button { label: Phrase::CancelLabel, tag: Some(Phrase::CancelTag) },
            ],
        }
    }

    /// The buttons of the keyboard, one per row, top row first.
    pub fn buttons(self) -> (rows: Vec<Button>)
        ensures
            rows@ == self.layout(),
    {
        let mut rows: Vec<Button> = Vec::new();
        match self {
            Keyboard::RequestTurn => {
                rows.push(Button { label: Phrase::TurnLabel, tag: None });
            },
            Keyboard::Confirmation => {
                rows.push(Button { label: Phrase::ConfirmLabel, tag: Some(Phrase::ConfirmTag) });
                rows.push(Button { label: Phrase::CancelLabel, tag: Some(Phrase::CancelTag) });
            },
        }
        proof {
            assert(rows@ =~= self.layout());
        }
        rows
    }
}

/// One request to the messaging platform. None of them is answered.
#[derive(Debug, PartialEq, Eq)]
pub enum Action {
    /// Send `text` to `chat`, with a keyboard or without.
    SendText { chat: ChatId, text: String, keyboard: Option<Keyboard> },
    /// Delete a message.
    DeleteMessage(MessageRef),
    /// Remove `member` from `chat`.
    RemoveMember { chat: ChatId, member: MemberId },
}

/// An action with its text as a sequence of characters.
pub enum ActionView {
    SendText { chat: ChatId, text: Seq<char>, keyboard: Option<Keyboard> },
    DeleteMessage(MessageRef),
    RemoveMember { chat: ChatId, member: MemberId },
}

impl DeepView for Action {
    type V = ActionView;

    open spec fn deep_view(&self) -> ActionView {
        match *self {
            Action::SendText { chat, text, keyboard } => ActionView::SendText {
                chat,
                text: text@,
                keyboard,
            },
            Action::DeleteMessage(message) => ActionView::DeleteMessage(message),
            Action::RemoveMember { chat, member } => ActionView::RemoveMember { chat, member },
        }
    }
}

impl Clone for Action {
    fn clone(&self) -> (copy: Action)
        ensures
            copy == *self,
    {
        match self {
            Action::SendText { chat, text, keyboard } => Action::SendText {
                chat: *chat,
                text: text.clone(),
                keyboard: *keyboard,
            },
            Action::DeleteMessage(message) => Action::DeleteMessage(*message),
            Action::RemoveMember { chat, member } => Action::RemoveMember {
                chat: *chat,
                member: *member,
            },
        }
    }
}

/// The deep views of `items`, in their order.
pub open spec fn deep<T: DeepView>(items: Seq<T>) -> Seq<T::V> {
    Seq::new(items.len(), |i: int| items[i].deep_view())
}

/// The deep views of items that grew by one grew by that item's deep view.
pub proof fn lemma_deep_view_push<T: DeepView>(before: Seq<T>, item: T)
    ensures
        deep(before.push(item)) == deep(before).push(item.deep_view()),
{
    assert(deep(before.push(item)) =~= deep(before).push(item.deep_view()));
}

} // verus!
