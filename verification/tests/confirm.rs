use chat_queue::action::Action;
use chat_queue::confirm::{
    resolve, resolve_cancel, resolve_confirm, Answer, PendingConfirmation, Stage,
};
use chat_queue::ident::{ChatId, MemberId, MessageId, MessageRef};

fn pending() -> PendingConfirmation {
    PendingConfirmation {
        member: MemberId(42),
        prompt: MessageRef { chat: ChatId(100), message: MessageId(8) },
    }
}

fn removals(actions: &[Action]) -> Vec<(ChatId, MemberId)> {
    let mut found = Vec::new();
    for action in actions {
        if let Action::RemoveMember { chat, member } = action {
            found.push((*chat, *member));
        }
    }
    found
}

#[test]
fn confirm_removes_from_each_chat_once() {
    let actions = resolve_confirm(&pending(), &vec![ChatId(100), ChatId(200), ChatId(-7)]);
    assert_eq!(
        actions,
        vec![
            Action::RemoveMember { chat: ChatId(100), member: MemberId(42) },
            Action::RemoveMember { chat: ChatId(200), member: MemberId(42) },
            Action::RemoveMember { chat: ChatId(-7), member: MemberId(42) },
            Action::SendText { chat: ChatId(100), text: String::from("Удачи!"), keyboard: None },
            Action::DeleteMessage(MessageRef { chat: ChatId(100), message: MessageId(8) }),
        ]
    );
    assert_eq!(
        removals(&actions),
        vec![
            (ChatId(100), MemberId(42)),
            (ChatId(200), MemberId(42)),
            (ChatId(-7), MemberId(42))
        ]
    );
}

#[test]
fn confirm_without_chats_removes_nobody() {
    let actions = resolve_confirm(&pending(), &Vec::new());
    assert_eq!(removals(&actions), Vec::new());
    assert_eq!(
        actions,
        vec![
            Action::SendText { chat: ChatId(100), text: String::from("Удачи!"), keyboard: None },
            Action::DeleteMessage(MessageRef { chat: ChatId(100), message: MessageId(8) }),
        ]
    );
}

#[test]
fn cancel_only_deletes_the_prompt() {
    assert_eq!(
        resolve_cancel(&pending()),
        vec![Action::DeleteMessage(MessageRef { chat: ChatId(100), message: MessageId(8) })]
    );
}

#[test]
fn resolve_follows_the_answer() {
    let chats = vec![ChatId(5)];
    assert_eq!(resolve(&pending(), Answer::Confirm, &chats), resolve_confirm(&pending(), &chats));
    assert_eq!(resolve(&pending(), Answer::Cancel, &chats), resolve_cancel(&pending()));
}

#[test]
fn stage_goes_from_idle_over_prompted_to_resolved() {
    let stage = Stage::Idle;
    let (same, nothing) = stage.answer(Answer::Confirm, &vec![ChatId(5)]);
    assert_eq!(same, Stage::Idle);
    assert_eq!(nothing, Vec::new());
    let waiting = stage.prompt(pending());
    assert_eq!(waiting, Stage::Prompted(pending()));
    assert_eq!(waiting.prompt(pending()), waiting);
    let (done, actions) = waiting.answer(Answer::Confirm, &vec![ChatId(5)]);
    assert_eq!(done, Stage::Resolved);
    assert_eq!(actions, resolve_confirm(&pending(), &vec![ChatId(5)]));
    let (cancelled, deletion) = waiting.answer(Answer::Cancel, &vec![ChatId(5)]);
    assert_eq!(cancelled, Stage::Resolved);
    assert_eq!(deletion, resolve_cancel(&pending()));
    let (still, none) = done.answer(Answer::Confirm, &vec![ChatId(5)]);
    assert_eq!(still, Stage::Resolved);
    assert_eq!(none, Vec::new());
    assert_eq!(done.prompt(pending()), Stage::Resolved);
}
