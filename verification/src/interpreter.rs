//! From one event to the steps that answer it.
//!
//! The interpreter reads nothing but the event. What it decides is a plan: the changes to
//! the membership index and the requests to the platform, in the order in which they are
//! due.

use crate::action::{Action, ActionView, Keyboard};
use crate::confirm::PendingConfirmation;
use crate::event::{names_of, BotStatus, ChatRef, Event, Newcomer};
use crate::ident::{ChatId, MemberId, Membership, MessageRef};
use crate::wording::{welcome, Phrase};
use vstd::prelude::*;

verus! {

/// One step of a plan.
#[derive(Debug, PartialEq, Eq)]
pub enum Step {
    /// Add the membership to the index.
    Record(Membership),
    /// Take the membership out of the index.
    Forget(Membership),
    /// Hand the action to the platform.
    Emit(Action),
    /// The prompt was confirmed: list the member's chats and act on the confirmation.
    Resolve(PendingConfirmation),
    /// The bot takes part in the chat: bring the index in line with the chat's members.
    /// Nothing can list them yet, so the step only announces the intent.
    Sync(ChatId),
    /// The bot is out of the chat. The chat's memberships stay in the index.
    BotLeft(ChatId),
}

/// A step with its text as a sequence of characters.
pub enum StepView {
    Record(Membership),
    Forget(Membership),
    Emit(ActionView),
    Resolve(PendingConfirmation),
    Sync(ChatId),
    BotLeft(ChatId),
}

impl DeepView for Step {
    type V = StepView;

    open spec fn deep_view(&self) -> StepView {
        match *self {
            Step::Record(entry) => StepView::Record(entry),
            Step::Forget(entry) => StepView::Forget(entry),
            Step::Emit(action) => StepView::Emit(action.deep_view()),
            Step::Resolve(pending) => StepView::Resolve(pending),
            Step::Sync(chat) => StepView::Sync(chat),
            Step::BotLeft(chat) => StepView::BotLeft(chat),
        }
    }
}

/// The sending of a phrase.
pub open spec fn say(chat: ChatId, phrase: Phrase, keyboard: Option<Keyboard>) -> StepView {
    StepView::Emit(ActionView::SendText { chat, text: phrase.chars(), keyboard })
}

/// The plan for a text that `sender` wrote in `chat`: the sender is seen there, whatever
/// they wrote; the start command is greeted, and a request for a turn is prompted, before
/// that.
pub open spec fn text_plan(chat: ChatId, sender: MemberId, text: Seq<char>) -> Seq<StepView> {
    let seen = StepView::Record(Membership { member: sender, chat });
    if text == Phrase::StartCommand.chars() {
        seq![say(chat, Phrase::Greeting, Some(Keyboard::RequestTurn)), seen]
    } else if text == Phrase::TurnLabel.chars() {
        seq![say(chat, Phrase::Prompt, Some(Keyboard::Confirmation)), seen]
    } else {
        seq![seen]
    }
}

/// The recording of each of `members` in `chat`, in their order.
pub open spec fn records(chat: ChatId, members: Seq<Newcomer>) -> Seq<StepView> {
    Seq::new(
        members.len(),
        |i: int| StepView::Record(Membership { member: members[i].id, chat }),
    )
}

/// The plan for members who joined `chat`: each is recorded there, in their order, and then
/// one welcome goes to the chat, which names them all and brings the keyboard again.
pub open spec fn join_plan(chat: ChatId, members: Seq<Newcomer>) -> Seq<StepView> {
    records(chat, members).push(
        StepView::Emit(
            ActionView::SendText {
                chat,
                text: welcome(names_of(members)),
                keyboard: Some(Keyboard::RequestTurn),
            },
        ),
    )
}

/// The plan for a member who left `chat`: they are forgotten there, and one farewell goes
/// to the chat.
pub open spec fn leave_plan(chat: ChatId, member: MemberId) -> Seq<StepView> {
    seq![StepView::Forget(Membership { member, chat }), say(chat, Phrase::Farewell, None)]
}

/// The plan for a pressed button: the confirming tag resolves the prompt for the member who
/// pressed, the cancelling tag deletes the prompt, any other tag does nothing.
pub open spec fn callback_plan(sender: MemberId, tag: Seq<char>, prompt: MessageRef) -> Seq<
    StepView,
> {
    if tag == Phrase::ConfirmTag.chars() {
        seq![StepView::Resolve(PendingConfirmation { member: sender, prompt })]
    } else if tag == Phrase::CancelTag.chars() {
        seq![StepView::Emit(ActionView::DeleteMessage(prompt))]
    } else {
        Seq::empty()
    }
}

/// The plan for a change of the bot's own standing in `chat`.
pub open spec fn standing_plan(chat: ChatId, status: BotStatus) -> Seq<StepView> {
    if status.active() {
        seq![StepView::Sync(chat)]
    } else if status.gone() {
        seq![StepView::BotLeft(chat)]
    } else {
        Seq::empty()
    }
}

/// The plan for `event`. An event of a chat without a concrete identity, a button without
/// tag or prompt, and an event of any other kind have the empty plan.
pub open spec fn plan_of(event: Event) -> Seq<StepView> {
    match event {
        Event::Text { chat, sender, text } => match chat {
            ChatRef::Id(id) => text_plan(id, sender, text@),
            ChatRef::Unresolved => Seq::empty(),
        },
        Event::NewMembers { chat, members } => match chat {
            ChatRef::Id(id) => join_plan(id, members@),
            ChatRef::Unresolved => Seq::empty(),
        },
        Event::MemberLeft { chat, member } => match chat {
            ChatRef::Id(id) => leave_plan(id, member),
            ChatRef::Unresolved => Seq::empty(),
        },
        Event::Callback { sender, tag, prompt } => match (tag, prompt) {
            (Some(tag), Some(prompt)) => callback_plan(sender, tag@, prompt),
            _ => Seq::empty(),
        },
        Event::BotMembership { chat, status } => standing_plan(chat, status),
        Event::Other => Seq::empty(),
    }
}

/// The step that sends a phrase.
fn say_step(chat: ChatId, phrase: Phrase, keyboard: Option<Keyboard>) -> (step: Step)
    ensures
        step.deep_view() == say(chat, phrase, keyboard),
{
    Step::Emit(Action::SendText { chat, text: phrase.text(), keyboard })
}

/// Plans the answer to a text.
fn plan_text(chat: ChatId, sender: MemberId, text: &String) -> (plan: Vec<Step>)
    ensures
        plan.deep_view() == text_plan(chat, sender, text@),
{
    let mut plan: Vec<Step> = Vec::new();
    if Phrase::StartCommand.equals(text) {
        plan.push(say_step(chat, Phrase::Greeting, Some(Keyboard::RequestTurn)));
    } else if Phrase::TurnLabel.equals(text) {
        plan.push(say_step(chat, Phrase::Prompt, Some(Keyboard::Confirmation)));
    }
    plan.push(Step::Record(Membership { member: sender, chat }));
    proof {
        assert(plan.deep_view() =~= text_plan(chat, sender, text@));
    }
    plan
}

/// Writes the welcome for `members`.
fn welcome_for(members: &Vec<Newcomer>) -> (line: String)
    ensures
        line@ == welcome(names_of(members@)),
{
    let mut names: Vec<String> = Vec::new();
    let n = members.len();
    let mut i: usize = 0;
    while i < n
        invariant
            n == members@.len(),
            i <= n,
            names@.len() == i,
            forall|j: int| 0 <= j < i ==> names@[j]@ == members@[j].name@,
        decreases n - i,
    {
        names.push(members[i].name.clone());
        i += 1;
    }
    proof {
        assert(names.deep_view() =~= names_of(members@));
    }
    crate::wording::welcome_text(&names)
}

/// Plans the answer to members joining.
fn plan_join(chat: ChatId, members: &Vec<Newcomer>) -> (plan: Vec<Step>)
    ensures
        plan.deep_view() == join_plan(chat, members@),
{
    let mut plan: Vec<Step> = Vec::new();
    let n = members.len();
    let mut i: usize = 0;
    while i < n
        invariant
            n == members@.len(),
            i <= n,
            plan@.len() == i,
            forall|j: int|
                0 <= j < i ==> plan@[j].deep_view() == StepView::Record(
                    Membership { member: members@[j].id, chat },
                ),
        decreases n - i,
    {
        plan.push(Step::Record(Membership { member: members[i].id, chat }));
        i += 1;
    }
    let text = welcome_for(members);
    plan.push(Step::Emit(Action::SendText { chat, text, keyboard: Some(Keyboard::RequestTurn) }));
    proof {
        assert(plan.deep_view() =~= join_plan(chat, members@));
    }
    plan
}

/// Plans the answer to a member leaving.
fn plan_leave(chat: ChatId, member: MemberId) -> (plan: Vec<Step>)
    ensures
        plan.deep_view() == leave_plan(chat, member),
{
    let mut plan: Vec<Step> = Vec::new();
    plan.push(Step::Forget(Membership { member, chat }));
    plan.push(say_step(chat, Phrase::Farewell, None));
    proof {
        assert(plan.deep_view() =~= leave_plan(chat, member));
    }
    plan
}

/// Plans the answer to a pressed button.
fn plan_callback(sender: MemberId, tag: &String, prompt: MessageRef) -> (plan: Vec<Step>)
    ensures
        plan.deep_view() == callback_plan(sender, tag@, prompt),
{
    let mut plan: Vec<Step> = Vec::new();
    if Phrase::ConfirmTag.equals(tag) {
        plan.push(Step::Resolve(PendingConfirmation { member: sender, prompt }));
    } else if Phrase::CancelTag.equals(tag) {
        plan.push(Step::Emit(Action::DeleteMessage(prompt)));
    }
    proof {
        assert(plan.deep_view() =~= callback_plan(sender, tag@, prompt));
    }
    plan
}

/// Plans the answer to a change of the bot's own standing.
fn plan_standing(chat: ChatId, status: BotStatus) -> (plan: Vec<Step>)
    ensures
        plan.deep_view() == standing_plan(chat, status),
{
    let mut plan: Vec<Step> = Vec::new();
    if status.is_active() {
        plan.push(Step::Sync(chat));
    } else if status.is_gone() {
        plan.push(Step::BotLeft(chat));
    }
    proof {
        assert(plan.deep_view() =~= standing_plan(chat, status));
    }
    plan
}

/// The empty plan.
fn nothing() -> (plan: Vec<Step>)
    ensures
        plan.deep_view() == Seq::<StepView>::empty(),
{
    let plan: Vec<Step> = Vec::new();
    proof {
        assert(plan.deep_view() =~= Seq::<StepView>::empty());
    }
    plan
}

/// Decides what `event` calls for.
pub fn interpret(event: &Event) -> (plan: Vec<Step>)
    ensures
        plan.deep_view() == plan_of(*event),
{
    match event {
        Event::Text { chat, sender, text } => match chat {
            ChatRef::Id(id) => plan_text(*id, *sender, text),
            ChatRef::Unresolved => nothing(),
        },
        Event::NewMembers { chat, members } => match chat {
            ChatRef::Id(id) => plan_join(*id, members),
            ChatRef::Unresolved => nothing(),
        },
        Event::MemberLeft { chat, member } => match chat {
            ChatRef::Id(id) => plan_leave(*id, *member),
            ChatRef::Unresolved => nothing(),
        },
        Event::Callback { sender, tag, prompt } => match (tag, prompt) {
            (Some(tag), Some(prompt)) => plan_callback(*sender, tag, *prompt),
            _ => nothing(),
        },
        Event::BotMembership { chat, status } => plan_standing(*chat, *status),
        Event::Other => nothing(),
    }
}

} // verus!
