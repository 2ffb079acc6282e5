//! Carrying out plans against a membership index.

use crate::action::{deep, Action, ActionView, Keyboard};
use crate::confirm::{
    confirmation, law_one_removal_per_chat, removal_count, removals_in, resolve_confirm,
    PendingConfirmation,
};
use crate::event::{ids_of, names_of, ChatRef, Event, Newcomer};
use crate::ident::{ChatId, MemberId, Membership};
use crate::index::{
    chats_listed, forgotten, lemma_chats_listed, lemma_forgotten, lemma_recorded,
    lemma_recorded_all, recorded, recorded_all, MembershipIndex,
};
use crate::interpreter::{interpret, plan_of, records, say, Step, StepView};
use crate::wording::{welcome, Phrase};
use vstd::prelude::*;

verus! {

/// The entries of an index after `step`.
pub open spec fn entries_after(entries: Seq<Membership>, step: StepView) -> Seq<Membership> {
    match step {
        StepView::Record(entry) => recorded(entries, entry),
        StepView::Forget(entry) => forgotten(entries, entry),
        _ => entries,
    }
}

/// The memberships that an index holds after `step`, as a relation: a `Record` adds one,
/// a `Forget` takes one away, and no other step changes anything.
pub open spec fn known_after(known: Set<Membership>, step: StepView) -> Set<Membership> {
    match step {
        StepView::Record(entry) => known.insert(entry),
        StepView::Forget(entry) => known.remove(entry),
        _ => known,
    }
}

/// What a step does to the entries is what it does to the relation, and it leaves entries
/// that held no repetition without repetition.
pub proof fn lemma_step_on_relation(entries: Seq<Membership>, step: StepView)
    ensures
        entries_after(entries, step).to_set() == known_after(entries.to_set(), step),
        entries.no_duplicates() ==> entries_after(entries, step).no_duplicates(),
{
    match step {
        StepView::Record(entry) => {
            lemma_recorded(entries, entry);
        },
        StepView::Forget(entry) => {
            lemma_forgotten(entries, entry);
        },
        _ => {},
    }
}

/// The actions that `step` hands to the platform, taken against an index of `entries`.
pub open spec fn actions_of(entries: Seq<Membership>, step: StepView) -> Seq<ActionView> {
    match step {
        StepView::Emit(action) => seq![action],
        StepView::Resolve(pending) => confirmation(
            pending,
            chats_listed(entries, pending.member),
        ),
        _ => Seq::empty(),
    }
}

/// The entries of an index after the steps of `plan`, first to last.
pub open spec fn entries_after_plan(entries: Seq<Membership>, plan: Seq<StepView>) -> Seq<
    Membership,
>
    decreases plan.len(),
{
    if plan.len() == 0 {
        entries
    } else {
        entries_after(entries_after_plan(entries, plan.drop_last()), plan.last())
    }
}

/// The actions that the steps of `plan` hand to the platform, first to last, each step
/// taken against the index as the steps before it left it.
pub open spec fn actions_of_plan(entries: Seq<Membership>, plan: Seq<StepView>) -> Seq<
    ActionView,
>
    decreases plan.len(),
{
    if plan.len() == 0 {
        Seq::empty()
    } else {
        actions_of_plan(entries, plan.drop_last()) + actions_of(
            entries_after_plan(entries, plan.drop_last()),
            plan.last(),
        )
    }
}

/// Carries out one step. The index changes by a `Record` or a `Forget` and by no other
/// step; `Sync` and `BotLeft` neither change it nor ask anything of the platform.
pub fn apply(index: &mut MembershipIndex, step: &Step) -> (actions: Vec<Action>)
    ensures
        final(index).entries() == entries_after(old(index).entries(), step.deep_view()),
        final(index)@ == known_after(old(index)@, step.deep_view()),
        actions.deep_view() == actions_of(old(index).entries(), step.deep_view()),
        final(index).unique(),
{
    let mut actions: Vec<Action> = Vec::new();
    proof {
        use_type_invariant(&*index);
        lemma_step_on_relation(index.entries(), step.deep_view());
    }
    match step {
        Step::Record(entry) => {
            index.record(entry.member, entry.chat);
        },
        Step::Forget(entry) => {
            index.forget(entry.member, entry.chat);
        },
        Step::Emit(action) => {
            actions.push(action.clone());
        },
        Step::Resolve(pending) => {
            let chats = index.list_chats(pending.member);
            actions = resolve_confirm(pending, &chats);
        },
        Step::Sync(_) => {},
        Step::BotLeft(_) => {},
    }
    proof {
        assert(actions.deep_view() =~= actions_of(old(index).entries(), step.deep_view()));
    }
    actions
}

/// Carries out the steps of `plan`, first to last, and returns what they hand to the
/// platform, in that order.
pub fn run(index: &mut MembershipIndex, plan: &Vec<Step>) -> (actions: Vec<Action>)
    ensures
        final(index).entries() == entries_after_plan(old(index).entries(), plan.deep_view()),
        actions.deep_view() == actions_of_plan(old(index).entries(), plan.deep_view()),
        final(index).unique(),
{
    let mut actions: Vec<Action> = Vec::new();
    let n = plan.len();
    let mut i: usize = 0;
    proof {
        use_type_invariant(&*index);
    }
    while i < n
        invariant
            n == plan@.len(),
            i <= n,
            index.unique(),
            index.entries() == entries_after_plan(
                old(index).entries(),
                plan.deep_view().take(i as int),
            ),
            deep(actions@) == actions_of_plan(
                old(index).entries(),
                plan.deep_view().take(i as int),
            ),
        decreases n - i,
    {
        proof {
            let next = plan.deep_view().take(i + 1);
            assert(next.drop_last() =~= plan.deep_view().take(i as int));
            assert(next.last() == plan@[i as int].deep_view());
        }
        let ghost before = actions@;
        let mut more = apply(index, &plan[i]);
        let ghost added = more@;
        proof {
            assert(more.deep_view() =~= deep(added));
        }
        actions.append(&mut more);
        proof {
            assert(deep(actions@) =~= deep(before) + deep(added));
        }
        i += 1;
    }
    proof {
        assert(plan.deep_view().take(n as int) =~= plan.deep_view());
        assert(actions.deep_view() =~= deep(actions@));
    }
    actions
}

/// A plan of one step more does what the plan does, and then what the step does.
pub proof fn lemma_plan_push(entries: Seq<Membership>, plan: Seq<StepView>, step: StepView)
    ensures
        entries_after_plan(entries, plan.push(step)) == entries_after(
            entries_after_plan(entries, plan),
            step,
        ),
        actions_of_plan(entries, plan.push(step)) == actions_of_plan(entries, plan) + actions_of(
            entries_after_plan(entries, plan),
            step,
        ),
{
    assert(plan.push(step).drop_last() =~= plan);
}

/// A plan of one step does what the step does.
pub proof fn lemma_plan_single(entries: Seq<Membership>, step: StepView)
    ensures
        entries_after_plan(entries, seq![step]) == entries_after(entries, step),
        actions_of_plan(entries, seq![step]) == actions_of(entries, step),
{
    lemma_plan_push(entries, Seq::<StepView>::empty(), step);
    assert(Seq::<StepView>::empty().push(step) =~= seq![step]);
    assert(Seq::<ActionView>::empty() + actions_of(entries, step) =~= actions_of(entries, step));
}

/// Recording step by step is recording all, and hands nothing to the platform.
proof fn lemma_records(entries: Seq<Membership>, chat: ChatId, members: Seq<Newcomer>)
    ensures
        entries_after_plan(entries, records(chat, members)) == recorded_all(
            entries,
            ids_of(members),
            chat,
        ),
        actions_of_plan(entries, records(chat, members)) == Seq::<ActionView>::empty(),
    decreases members.len(),
{
    if members.len() > 0 {
        let front = members.drop_last();
        lemma_records(entries, chat, front);
        assert(records(chat, members).drop_last() =~= records(chat, front));
        assert(ids_of(members).drop_last() =~= ids_of(front));
        assert(actions_of_plan(entries, records(chat, members)) =~= Seq::<ActionView>::empty());
    }
}

/// No pressed button changes the index: not the cancelling one, not the confirming one,
/// and none with another tag or with tag or prompt missing.
pub proof fn law_callback_keeps_index(entries: Seq<Membership>, event: Event)
    requires
        event is Callback,
    ensures
        entries_after_plan(entries, plan_of(event)) == entries,
{
    let plan = plan_of(event);
    if plan.len() > 0 {
        assert(plan =~= seq![plan[0]]);
        lemma_plan_single(entries, plan[0]);
    }
}

/// The cancelling button leaves the index as it is and has the prompt deleted, nothing
/// more.
pub proof fn law_cancel(entries: Seq<Membership>, event: Event)
    requires
        event matches Event::Callback { tag: Some(tag), prompt: Some(_), .. } && tag@
            == Phrase::CancelTag.chars(),
    ensures
        entries_after_plan(entries, plan_of(event)) == entries,
        actions_of_plan(entries, plan_of(event)) == seq![
            ActionView::DeleteMessage(event->prompt.unwrap()),
        ],
{
    reveal_strlit("apply_buff");
    reveal_strlit("delete_request");
    assert(Phrase::CancelTag.chars().len() != Phrase::ConfirmTag.chars().len());
    let step = StepView::Emit(ActionView::DeleteMessage(event->prompt.unwrap()));
    assert(plan_of(event) =~= seq![step]);
    lemma_plan_single(entries, step);
}

/// The confirming button leaves the index as it is. It has the member who pressed removed
/// from each chat listed for them, a word sent to the chat of the prompt, and the prompt
/// deleted.
pub proof fn law_confirm(entries: Seq<Membership>, event: Event)
    requires
        event matches Event::Callback { tag: Some(tag), prompt: Some(_), .. } && tag@
            == Phrase::ConfirmTag.chars(),
    ensures
        entries_after_plan(entries, plan_of(event)) == entries,
        actions_of_plan(entries, plan_of(event)) == confirmation(
            PendingConfirmation { member: event->Callback_sender, prompt: event->prompt.unwrap() },
            chats_listed(entries, event->Callback_sender),
        ),
{
    let step = StepView::Resolve(
        PendingConfirmation { member: event->Callback_sender, prompt: event->prompt.unwrap() },
    );
    assert(plan_of(event) =~= seq![step]);
    lemma_plan_single(entries, step);
}

/// The confirming button has the member who pressed removed exactly once from each chat
/// that the index holds for them, and asks for no other removal: for none at all where the
/// index holds no chat for them.
pub proof fn law_confirm_removes_once(entries: Seq<Membership>, event: Event)
    requires
        entries.no_duplicates(),
        event matches Event::Callback { tag: Some(tag), prompt: Some(_), .. } && tag@
            == Phrase::ConfirmTag.chars(),
    ensures
        ({
            let member = event->Callback_sender;
            let actions = actions_of_plan(entries, plan_of(event));
            &&& forall|chat: ChatId|
                entries.contains(Membership { member, chat }) ==> #[trigger] removal_count(
                    actions,
                    chat,
                    member,
                ) == 1
            &&& forall|chat: ChatId|
                !entries.contains(Membership { member, chat }) ==> #[trigger] removal_count(
                    actions,
                    chat,
                    member,
                ) == 0
            &&& forall|chat: ChatId, other: MemberId|
                other != member ==> #[trigger] removal_count(actions, chat, other) == 0
            &&& removals_in(actions) == chats_listed(entries, member).len()
            &&& chats_listed(entries, member).len() == 0 ==> removals_in(actions) == 0
        }),
{
    let member = event->Callback_sender;
    let pending = PendingConfirmation { member, prompt: event->prompt.unwrap() };
    law_confirm(entries, event);
    lemma_chats_listed(entries, member);
    law_one_removal_per_chat(pending, chats_listed(entries, member));
}

/// When members join a chat, each of them is recorded there, nothing else changes in the
/// index, and the chat gets one welcome that names them all, in their order.
pub proof fn law_join(entries: Seq<Membership>, event: Event)
    requires
        event matches Event::NewMembers { chat: ChatRef::Id(_), .. },
    ensures
        ({
            let chat = event->NewMembers_chat->Id_0;
            let members = event->members@;
            let after = entries_after_plan(entries, plan_of(event));
            &&& after == recorded_all(entries, ids_of(members), chat)
            &&& forall|i: int|
                0 <= i < members.len() ==> after.contains(
                    Membership { member: #[trigger] members[i].id, chat },
                )
            &&& forall|e: Membership| #[trigger]
                after.contains(e) <==> entries.contains(e) || (e.chat == chat && ids_of(
                    members,
                ).contains(e.member))
            &&& actions_of_plan(entries, plan_of(event)) == seq![
                ActionView::SendText {
                    chat,
                    text: welcome(names_of(members)),
                    keyboard: Some(Keyboard::RequestTurn),
                },
            ]
        }),
{
    let chat = event->NewMembers_chat->Id_0;
    let members = event->members@;
    let word = StepView::Emit(
        ActionView::SendText {
            chat,
            text: welcome(names_of(members)),
            keyboard: Some(Keyboard::RequestTurn),
        },
    );
    lemma_records(entries, chat, members);
    lemma_plan_push(entries, records(chat, members), word);
    lemma_recorded_all(entries, ids_of(members), chat);
    let after = entries_after_plan(entries, plan_of(event));
    assert forall|i: int| 0 <= i < members.len() implies after.contains(
        Membership { member: #[trigger] members[i].id, chat },
    ) by {
        assert(ids_of(members)[i] == members[i].id);
    }
    assert(actions_of_plan(entries, plan_of(event)) =~= seq![
        ActionView::SendText {
            chat,
            text: welcome(names_of(members)),
            keyboard: Some(Keyboard::RequestTurn),
        },
    ]);
}

/// When a member leaves a chat, that membership is forgotten, nothing else changes in the
/// index, and the chat gets one farewell.
pub proof fn law_leave(entries: Seq<Membership>, event: Event)
    requires
        event matches Event::MemberLeft { chat: ChatRef::Id(_), .. },
    ensures
        ({
            let chat = event->MemberLeft_chat->Id_0;
            let gone = Membership { member: event->member, chat };
            let after = entries_after_plan(entries, plan_of(event));
            &&& after == forgotten(entries, gone)
            &&& !after.contains(gone)
            &&& forall|e: Membership| e != gone ==> (#[trigger] after.contains(e) <==> entries.contains(e))
            &&& actions_of_plan(entries, plan_of(event)) == seq![
                ActionView::SendText { chat, text: Phrase::Farewell.chars(), keyboard: None },
            ]
        }),
{
    let chat = event->MemberLeft_chat->Id_0;
    let gone = Membership { member: event->member, chat };
    let first = StepView::Forget(gone);
    let second = say(chat, Phrase::Farewell, None);
    assert(plan_of(event) =~= seq![first].push(second));
    lemma_plan_single(entries, first);
    lemma_plan_push(entries, seq![first], second);
    lemma_forgotten(entries, gone);
    assert(actions_of_plan(entries, plan_of(event)) =~= seq![
        ActionView::SendText { chat, text: Phrase::Farewell.chars(), keyboard: None },
    ]);
}

/// Answers one event against the index: plans, and carries the plan out.
pub fn handle_event(index: &mut MembershipIndex, event: &Event) -> (actions: Vec<Action>)
    ensures
        final(index).entries() == entries_after_plan(old(index).entries(), plan_of(*event)),
        actions.deep_view() == actions_of_plan(old(index).entries(), plan_of(*event)),
        final(index).unique(),
{
    let plan = interpret(event);
    run(index, &plan)
}

} // verus!
