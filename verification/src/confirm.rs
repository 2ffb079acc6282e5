//! The confirmation of a turn: a member asked, was prompted, and the prompt is answered.

use crate::action::{deep, lemma_deep_view_push, Action, ActionView};
use crate::ident::{ChatId, MemberId, MessageRef};
use crate::wording::Phrase;
use vstd::prelude::*;

verus! {

/// A prompt that waits for its answer: who asked for their turn, and the message that asks
/// them to confirm.
#[derive(Clone, Copy, Debug, PartialEq, Eq, Structural)]
pub struct PendingConfirmation {
    pub member: MemberId,
    pub prompt: MessageRef,
}

/// How a prompt is answered.
#[derive(Clone, Copy, Debug, PartialEq, Eq, Structural)]
pub enum Answer {
    Confirm,
    Cancel,
}

/// Where one confirmation stands.
#[derive(Clone, Copy, Debug, PartialEq, Eq, Structural)]
pub enum Stage {
    /// Nothing was asked yet.
    Idle,
    /// The prompt was sent and waits, for as long as it takes.
    Prompted(PendingConfirmation),
    /// The prompt was answered.
    Resolved,
}

impl Stage {
    /// The stage after a prompt was sent for `pending`: a confirmation that was idle waits
    /// for the answer, any other stays where it is.
    pub open spec fn after_prompt(self, pending: PendingConfirmation) -> Stage {
        match self {
            Stage::Idle => Stage::Prompted(pending),
            _ => self,
        }
    }

    /// The stage after an answer came: a confirmation that waited is resolved, whichever
    /// the answer, any other stays where it is.
    pub open spec fn after_answer(self) -> Stage {
        match self {
            Stage::Prompted(_) => Stage::Resolved,
            _ => self,
        }
    }

    /// What an answer leads to at this stage: the resolution of the prompt that waited,
    /// and nothing where none did.
    pub open spec fn answered(self, answer: Answer, chats: Seq<ChatId>) -> Seq<ActionView> {
        match self {
            Stage::Prompted(pending) => resolution(pending, answer, chats),
            _ => Seq::empty(),
        }
    }

    /// Notes that a prompt was sent for `pending`.
    pub fn prompt(self, pending: PendingConfirmation) -> (next: Stage)
        ensures
            next == self.after_prompt(pending),
    {
        match self {
            Stage::Idle => Stage::Prompted(pending),
            _ => self,
        }
    }

    /// Takes the answer, `chats` being the chats listed for the member who waits.
    pub fn answer(self, answer: Answer, chats: &Vec<ChatId>) -> (outcome: (Stage, Vec<Action>))
        ensures
            outcome.0 == self.after_answer(),
            outcome.1.deep_view() == self.answered(answer, chats@),
    {
        match self {
            Stage::Prompted(pending) => (Stage::Resolved, resolve(&pending, answer, chats)),
            _ => {
                let nothing: Vec<Action> = Vec::new();
                proof {
                    assert(nothing.deep_view() =~= Seq::<ActionView>::empty());
                }
                (self, nothing)
            },
        }
    }
}

/// The removal of `member` from each of `chats`, in their order.
pub open spec fn removals(member: MemberId, chats: Seq<ChatId>) -> Seq<ActionView> {
    Seq::new(chats.len(), |i: int| ActionView::RemoveMember { chat: chats[i], member })
}

/// What a confirmed prompt leads to, `chats` being the chats listed for the member: the
/// member's removal from each, a word to the chat of the prompt, and the prompt's deletion.
pub open spec fn confirmation(pending: PendingConfirmation, chats: Seq<ChatId>) -> Seq<
    ActionView,
> {
    removals(pending.member, chats).push(
        ActionView::SendText {
            chat: pending.prompt.chat,
            text: Phrase::Acknowledgement.chars(),
            keyboard: None,
        },
    ).push(ActionView::DeleteMessage(pending.prompt))
}

/// What a cancelled prompt leads to: its deletion.
pub open spec fn cancellation(pending: PendingConfirmation) -> Seq<ActionView> {
    seq![ActionView::DeleteMessage(pending.prompt)]
}

/// What the answer to a prompt leads to.
pub open spec fn resolution(
    pending: PendingConfirmation,
    answer: Answer,
    chats: Seq<ChatId>,
) -> Seq<ActionView> {
    match answer {
        Answer::Confirm => confirmation(pending, chats),
        Answer::Cancel => cancellation(pending),
    }
}

/// How often `actions` ask for the removal of `member` from `chat`.
pub open spec fn removal_count(actions: Seq<ActionView>, chat: ChatId, member: MemberId) -> nat
    decreases actions.len(),
{
    if actions.len() == 0 {
        0
    } else if actions.last() == (ActionView::RemoveMember { chat, member }) {
        removal_count(actions.drop_last(), chat, member) + 1
    } else {
        removal_count(actions.drop_last(), chat, member)
    }
}

/// How many of `actions` ask for a removal, of whomever from wherever.
pub open spec fn removals_in(actions: Seq<ActionView>) -> nat
    decreases actions.len(),
{
    if actions.len() == 0 {
        0
    } else if actions.last() is RemoveMember {
        removals_in(actions.drop_last()) + 1
    } else {
        removals_in(actions.drop_last())
    }
}

/// The removals from `chats` ask once for each place at which `chat` stands among them.
proof fn lemma_removals_counted(member: MemberId, chats: Seq<ChatId>, chat: ChatId)
    ensures
        removals_in(removals(member, chats)) == chats.len(),
        chats.no_duplicates() ==> removal_count(removals(member, chats), chat, member) == (
        if chats.contains(chat) {
            1nat
        } else {
            0nat
        }),
        forall|other: MemberId|
            other != member ==> removal_count(removals(member, chats), chat, other) == 0,
    decreases chats.len(),
{
    let all = removals(member, chats);
    if chats.len() > 0 {
        let front = chats.drop_last();
        lemma_removals_counted(member, front, chat);
        assert(all.drop_last() =~= removals(member, front));
        assert(all.last() == ActionView::RemoveMember { chat: chats.last(), member });
        assert forall|other: MemberId| other != member implies removal_count(all, chat, other)
            == 0 by {
            assert(removal_count(removals(member, front), chat, other) == 0);
        }
        if chats.no_duplicates() {
            assert(front.no_duplicates());
            if chats.last() == chat {
                assert(chats[chats.len() - 1] == chat);
                assert(!front.contains(chat)) by {
                    if front.contains(chat) {
                        let i = choose|i: int| 0 <= i < front.len() && front[i] == chat;
                        assert(chats[i] == chats[chats.len() - 1]);
                    }
                }
            } else {
                assert(chats.contains(chat) <==> front.contains(chat)) by {
                    if chats.contains(chat) {
                        let i = choose|i: int| 0 <= i < chats.len() && chats[i] == chat;
                        assert(front[i] == chat);
                    }
                    if front.contains(chat) {
                        let i = choose|i: int| 0 <= i < front.len() && front[i] == chat;
                        assert(chats[i] == chat);
                    }
                }
            }
        }
    }
}

/// A confirmed prompt asks exactly once for the member's removal from each chat listed for
/// them, asks for no other removal, and so for none where no chat is listed.
pub proof fn law_one_removal_per_chat(pending: PendingConfirmation, chats: Seq<ChatId>)
    requires
        chats.no_duplicates(),
    ensures
        forall|chat: ChatId|
            chats.contains(chat) ==> #[trigger] removal_count(
                confirmation(pending, chats),
                chat,
                pending.member,
            ) == 1,
        forall|chat: ChatId|
            !chats.contains(chat) ==> #[trigger] removal_count(
                confirmation(pending, chats),
                chat,
                pending.member,
            ) == 0,
        forall|chat: ChatId, other: MemberId|
            other != pending.member ==> #[trigger] removal_count(
                confirmation(pending, chats),
                chat,
                other,
            ) == 0,
        removals_in(confirmation(pending, chats)) == chats.len(),
        chats.len() == 0 ==> removals_in(confirmation(pending, chats)) == 0,
{
    let asked = removals(pending.member, chats);
    let word = ActionView::SendText {
        chat: pending.prompt.chat,
        text: Phrase::Acknowledgement.chars(),
        keyboard: None,
    };
    let all = confirmation(pending, chats);
    assert(all.drop_last() =~= asked.push(word));
    assert(asked.push(word).drop_last() =~= asked);
    assert(removals_in(asked.push(word)) == removals_in(asked));
    assert(removals_in(all) == removals_in(asked));
    lemma_removals_counted(pending.member, chats, pending.prompt.chat);
    assert forall|chat: ChatId, other: MemberId| #[trigger]
        removal_count(all, chat, other) == removal_count(asked, chat, other) by {
        assert(removal_count(asked.push(word), chat, other) == removal_count(asked, chat, other));
    }
    assert forall|chat: ChatId|
        removal_count(all, chat, pending.member) == (if chats.contains(chat) {
            1nat
        } else {
            0nat
        }) by {
        lemma_removals_counted(pending.member, chats, chat);
    }
    assert forall|chat: ChatId, other: MemberId| other != pending.member implies removal_count(
        all,
        chat,
        other,
    ) == 0 by {
        lemma_removals_counted(pending.member, chats, chat);
    }
}

/// A cancelled prompt asks for no removal.
pub proof fn law_cancel_removes_nobody(pending: PendingConfirmation)
    ensures
        removals_in(cancellation(pending)) == 0,
{
    let only = cancellation(pending);
    assert(only.drop_last() =~= Seq::<ActionView>::empty());
    assert(removals_in(only.drop_last()) == 0);
}

/// The actions that a confirmed prompt leads to, `chats` being the chats listed for the
/// member.
pub fn resolve_confirm(pending: &PendingConfirmation, chats: &Vec<ChatId>) -> (actions: Vec<
    Action,
>)
    ensures
        actions.deep_view() == confirmation(*pending, chats@),
{
    let mut actions: Vec<Action> = Vec::new();
    let n = chats.len();
    let mut i: usize = 0;
    while i < n
        invariant
            n == chats@.len(),
            i <= n,
            deep(actions@) == removals(pending.member, chats@.take(i as int)),
        decreases n - i,
    {
        proof {
            lemma_deep_view_push(
                actions@,
                Action::RemoveMember { chat: chats@[i as int], member: pending.member },
            );
            assert(removals(pending.member, chats@.take(i as int)).push(
                ActionView::RemoveMember { chat: chats@[i as int], member: pending.member },
            ) =~= removals(pending.member, chats@.take(i + 1)));
        }
        actions.push(Action::RemoveMember { chat: chats[i], member: pending.member });
        i += 1;
    }
    let word = Action::SendText {
        chat: pending.prompt.chat,
        text: Phrase::Acknowledgement.text(),
        keyboard: None,
    };
    let deletion = Action::DeleteMessage(pending.prompt);
    proof {
        assert(chats@.take(n as int) =~= chats@);
        lemma_deep_view_push(actions@, word);
        lemma_deep_view_push(actions@.push(word), deletion);
    }
    actions.push(word);
    actions.push(deletion);
    proof {
        assert(actions.deep_view() =~= deep(actions@));
    }
    actions
}

/// The actions that a cancelled prompt leads to.
pub fn resolve_cancel(pending: &PendingConfirmation) -> (actions: Vec<Action>)
    ensures
        actions.deep_view() == cancellation(*pending),
{
    let mut actions: Vec<Action> = Vec::new();
    actions.push(Action::DeleteMessage(pending.prompt));
    proof {
        assert(actions.deep_view() =~= cancellation(*pending));
    }
    actions
}

/// The actions that the answer to a prompt leads to, `chats` being the chats listed for the
/// member.
pub fn resolve(pending: &PendingConfirmation, answer: Answer, chats: &Vec<ChatId>) -> (actions:
    Vec<Action>)
    ensures
        actions.deep_view() == resolution(*pending, answer, chats@),
{
    match answer {
        Answer::Confirm => resolve_confirm(pending, chats),
        Answer::Cancel => resolve_cancel(pending),
    }
}

} // verus!
