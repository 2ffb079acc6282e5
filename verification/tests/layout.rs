use chat_queue::engine::handle_event;
use chat_queue::event::{ChatRef, Event, Newcomer};
use chat_queue::ident::{ChatId, MemberId};
use chat_queue::index::MembershipIndex;
use chat_queue::interpreter::{interpret, Step};
use chat_queue::layout::{decimal_text, member_key};
use std::collections::{HashMap, HashSet};

#[test]
fn key_is_prefix_and_decimal() {
    assert_eq!(member_key(MemberId(42)), "chats_42");
    assert_eq!(member_key(MemberId(0)), "chats_0");
    assert_eq!(member_key(MemberId(1234567890)), "chats_1234567890");
}

#[test]
fn key_of_a_negative_number_carries_the_sign() {
    assert_eq!(member_key(MemberId(-1)), "chats_-1");
    assert_eq!(member_key(MemberId(-1001234)), "chats_-1001234");
}

#[test]
fn key_at_the_limits() {
    assert_eq!(member_key(MemberId(i64::MAX)), "chats_9223372036854775807");
    assert_eq!(member_key(MemberId(i64::MIN)), "chats_-9223372036854775808");
}

#[test]
fn decimal_text_agrees_with_the_standard_rendering() {
    for n in [0i64, 1, 9, 10, 11, 99, 100, 101, 909, 1000, -1, -9, -10, -100, 4611686018427387904] {
        assert_eq!(decimal_text(n), n.to_string());
    }
}

#[test]
fn keys_of_different_members_differ() {
    assert_ne!(member_key(MemberId(1)), member_key(MemberId(-1)));
    assert_ne!(member_key(MemberId(1)), member_key(MemberId(10)));
    assert_ne!(member_key(MemberId(12)), member_key(MemberId(21)));
}

#[test]
fn a_store_written_by_keys_mirrors_the_index() {
    let events = vec![
        Event::Text {
            chat: ChatRef::Id(ChatId(100)),
            sender: MemberId(42),
            text: String::from("/start"),
        },
        Event::NewMembers {
            chat: ChatRef::Id(ChatId(200)),
            members: vec![
                Newcomer { id: MemberId(42), name: String::from("Ann") },
                Newcomer { id: MemberId(-7), name: String::from("Bob") },
            ],
        },
        Event::Text {
            chat: ChatRef::Id(ChatId(-300)),
            sender: MemberId(-7),
            text: String::from("hello"),
        },
        Event::MemberLeft { chat: ChatRef::Id(ChatId(100)), member: MemberId(42) },
        Event::MemberLeft { chat: ChatRef::Id(ChatId(100)), member: MemberId(1) },
    ];
    let mut index = MembershipIndex::new();
    let mut store: HashMap<String, HashSet<i64>> = HashMap::new();
    for event in &events {
        for step in interpret(event) {
            match step {
                Step::Record(entry) => {
                    store.entry(member_key(entry.member)).or_default().insert(entry.chat.0);
                }
                Step::Forget(entry) => {
                    store.entry(member_key(entry.member)).or_default().remove(&entry.chat.0);
                }
                _ => {}
            }
        }
        handle_event(&mut index, event);
    }
    for member in [MemberId(42), MemberId(-7), MemberId(1), MemberId(7)] {
        let listed: HashSet<i64> = index.list_chats(member).into_iter().map(|chat| chat.0).collect();
        let stored = store.get(&member_key(member)).cloned().unwrap_or_default();
        assert_eq!(stored, listed);
    }
    assert_eq!(store.get("chats_42"), Some(&HashSet::from([200])));
    assert_eq!(store.get("chats_-7"), Some(&HashSet::from([200, -300])));
}
