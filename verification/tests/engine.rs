use chat_queue::action::{Action, Keyboard};
use chat_queue::confirm::PendingConfirmation;
use chat_queue::engine::{apply, handle_event, run};
use chat_queue::event::{BotStatus, ChatRef, Event, Newcomer};
use chat_queue::ident::{ChatId, MemberId, Membership, MessageId, MessageRef};
use chat_queue::index::MembershipIndex;
use chat_queue::interpreter::{interpret, Step};

fn text(chat: i64, sender: i64, text: &str) -> Event {
    Event::Text { chat: ChatRef::Id(ChatId(chat)), sender: MemberId(sender), text: String::from(text) }
}

fn callback(sender: i64, tag: &str, prompt: MessageRef) -> Event {
    Event::Callback { sender: MemberId(sender), tag: Some(String::from(tag)), prompt: Some(prompt) }
}

fn removals(actions: &[Action]) -> Vec<(ChatId, MemberId)> {
    let mut found = Vec::new();
    for action in actions {
        if let Action::RemoveMember { chat, member } = action {
            found.push((*chat, *member));
        }
    }
    found
}

#[test]
fn turn_is_requested_and_confirmed() {
    let mut index = MembershipIndex::new();

    let greeted = handle_event(&mut index, &text(100, 42, "/start"));
    assert_eq!(
        greeted,
        vec![Action::SendText {
            chat: ChatId(100),
            text: String::from("Привет!"),
            keyboard: Some(Keyboard::RequestTurn),
        }]
    );
    assert_eq!(index.list_chats(MemberId(42)), vec![ChatId(100)]);

    let prompted = handle_event(&mut index, &text(100, 42, "Моя очередь"));
    assert_eq!(
        prompted,
        vec![Action::SendText {
            chat: ChatId(100),
            text: String::from("Уже подошла?"),
            keyboard: Some(Keyboard::Confirmation),
        }]
    );
    assert_eq!(index.list_chats(MemberId(42)), vec![ChatId(100)]);
    assert_eq!(index.len(), 1);

    let prompt = MessageRef { chat: ChatId(100), message: MessageId(9) };
    let resolved = handle_event(&mut index, &callback(42, "apply_buff", prompt));
    assert_eq!(removals(&resolved), vec![(ChatId(100), MemberId(42))]);
    assert_eq!(
        resolved,
        vec![
            Action::RemoveMember { chat: ChatId(100), member: MemberId(42) },
            Action::SendText { chat: ChatId(100), text: String::from("Удачи!"), keyboard: None },
            Action::DeleteMessage(prompt),
        ]
    );
    assert_eq!(index.list_chats(MemberId(42)), vec![ChatId(100)]);
}

#[test]
fn bot_joining_a_chat_asks_for_a_sync() {
    let event = Event::BotMembership { chat: ChatId(200), status: BotStatus::Member };
    assert_eq!(interpret(&event), vec![Step::Sync(ChatId(200))]);
    let mut index = MembershipIndex::new();
    index.record(MemberId(1), ChatId(200));
    assert_eq!(handle_event(&mut index, &event), Vec::new());
    assert_eq!(index.len(), 1);
}

#[test]
fn bot_leaving_a_chat_keeps_its_memberships() {
    let event = Event::BotMembership { chat: ChatId(200), status: BotStatus::Removed };
    let mut index = MembershipIndex::new();
    index.record(MemberId(1), ChatId(200));
    assert_eq!(handle_event(&mut index, &event), Vec::new());
    assert!(index.contains(MemberId(1), ChatId(200)));
}

#[test]
fn confirm_removes_from_every_listed_chat_once() {
    let mut index = MembershipIndex::new();
    handle_event(&mut index, &text(1, 42, "hi"));
    handle_event(&mut index, &text(2, 42, "hi"));
    handle_event(&mut index, &text(2, 42, "hi again"));
    handle_event(&mut index, &text(3, 43, "hi"));
    let prompt = MessageRef { chat: ChatId(2), message: MessageId(5) };
    let resolved = handle_event(&mut index, &callback(42, "apply_buff", prompt));
    assert_eq!(removals(&resolved), vec![(ChatId(1), MemberId(42)), (ChatId(2), MemberId(42))]);
    assert_eq!(resolved.len(), 4);
}

#[test]
fn confirm_of_an_unknown_member_removes_nobody() {
    let mut index = MembershipIndex::new();
    handle_event(&mut index, &text(3, 43, "hi"));
    let prompt = MessageRef { chat: ChatId(2), message: MessageId(5) };
    let resolved = handle_event(&mut index, &callback(42, "apply_buff", prompt));
    assert_eq!(removals(&resolved), Vec::new());
    assert_eq!(
        resolved,
        vec![
            Action::SendText { chat: ChatId(2), text: String::from("Удачи!"), keyboard: None },
            Action::DeleteMessage(prompt),
        ]
    );
}

#[test]
fn cancel_leaves_the_index_alone() {
    let mut index = MembershipIndex::new();
    handle_event(&mut index, &text(1, 42, "hi"));
    handle_event(&mut index, &text(2, 42, "hi"));
    let prompt = MessageRef { chat: ChatId(2), message: MessageId(5) };
    let cancelled = handle_event(&mut index, &callback(42, "delete_request", prompt));
    assert_eq!(cancelled, vec![Action::DeleteMessage(prompt)]);
    assert_eq!(index.list_chats(MemberId(42)), vec![ChatId(1), ChatId(2)]);
    assert_eq!(index.len(), 2);
}

#[test]
fn two_newcomers_are_both_recorded_and_welcomed_once() {
    let mut index = MembershipIndex::new();
    let event = Event::NewMembers {
        chat: ChatRef::Id(ChatId(7)),
        members: vec![
            Newcomer { id: MemberId(1), name: String::from("Ann") },
            Newcomer { id: MemberId(2), name: String::from("Bob") },
        ],
    };
    let actions = handle_event(&mut index, &event);
    assert!(index.contains(MemberId(1), ChatId(7)));
    assert!(index.contains(MemberId(2), ChatId(7)));
    assert_eq!(index.len(), 2);
    assert_eq!(
        actions,
        vec![Action::SendText {
            chat: ChatId(7),
            text: String::from("Приветствую в новой группе, Ann, Bob!"),
            keyboard: Some(Keyboard::RequestTurn),
        }]
    );
}

#[test]
fn a_member_who_left_is_forgotten_with_one_farewell() {
    let mut index = MembershipIndex::new();
    index.record(MemberId(1), ChatId(7));
    index.record(MemberId(1), ChatId(8));
    index.record(MemberId(2), ChatId(7));
    let event = Event::MemberLeft { chat: ChatRef::Id(ChatId(7)), member: MemberId(1) };
    let actions = handle_event(&mut index, &event);
    assert_eq!(
        actions,
        vec![Action::SendText { chat: ChatId(7), text: String::from("Пока!"), keyboard: None }]
    );
    assert_eq!(index.list_chats(MemberId(1)), vec![ChatId(8)]);
    assert_eq!(index.list_chats(MemberId(2)), vec![ChatId(7)]);
}

#[test]
fn unresolved_chat_changes_nothing() {
    let mut index = MembershipIndex::new();
    let event = Event::Text {
        chat: ChatRef::Unresolved,
        sender: MemberId(1),
        text: String::from("/start"),
    };
    assert_eq!(handle_event(&mut index, &event), Vec::new());
    assert_eq!(index.len(), 0);
}

#[test]
fn apply_carries_out_one_step() {
    let mut index = MembershipIndex::new();
    let entry = Membership { member: MemberId(1), chat: ChatId(2) };
    assert_eq!(apply(&mut index, &Step::Record(entry)), Vec::new());
    assert!(index.contains(MemberId(1), ChatId(2)));
    let word =
        Action::SendText { chat: ChatId(2), text: String::from("x"), keyboard: None };
    assert_eq!(apply(&mut index, &Step::Emit(word.clone())), vec![word]);
    let pending = PendingConfirmation {
        member: MemberId(1),
        prompt: MessageRef { chat: ChatId(2), message: MessageId(3) },
    };
    let resolved = apply(&mut index, &Step::Resolve(pending));
    assert_eq!(removals(&resolved), vec![(ChatId(2), MemberId(1))]);
    assert_eq!(apply(&mut index, &Step::Forget(entry)), Vec::new());
    assert_eq!(index.len(), 0);
    assert_eq!(apply(&mut index, &Step::Sync(ChatId(2))), Vec::new());
    assert_eq!(apply(&mut index, &Step::BotLeft(ChatId(2))), Vec::new());
    assert_eq!(index.len(), 0);
}

#[test]
fn run_takes_each_step_against_what_the_steps_before_left() {
    let mut index = MembershipIndex::new();
    let pending = PendingConfirmation {
        member: MemberId(1),
        prompt: MessageRef { chat: ChatId(2), message: MessageId(3) },
    };
    let plan = vec![
        Step::Record(Membership { member: MemberId(1), chat: ChatId(2) }),
        Step::Record(Membership { member: MemberId(1), chat: ChatId(4) }),
        Step::Forget(Membership { member: MemberId(1), chat: ChatId(2) }),
        Step::Resolve(pending),
    ];
    let actions = run(&mut index, &plan);
    assert_eq!(removals(&actions), vec![(ChatId(4), MemberId(1))]);
    assert_eq!(run(&mut index, &Vec::new()), Vec::new());
}
