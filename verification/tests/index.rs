use chat_queue::ident::{ChatId, MemberId};
use chat_queue::index::MembershipIndex;

#[test]
fn new_index_knows_nobody() {
    let index = MembershipIndex::new();
    assert_eq!(index.len(), 0);
    assert_eq!(index.list_chats(MemberId(1)), Vec::<ChatId>::new());
    assert!(!index.contains(MemberId(1), ChatId(1)));
}

#[test]
fn record_adds_the_chat() {
    let mut index = MembershipIndex::new();
    index.record(MemberId(7), ChatId(-1001));
    assert!(index.contains(MemberId(7), ChatId(-1001)));
    assert_eq!(index.list_chats(MemberId(7)), vec![ChatId(-1001)]);
    assert_eq!(index.len(), 1);
}

#[test]
fn record_twice_is_record_once() {
    let mut once = MembershipIndex::new();
    once.record(MemberId(7), ChatId(5));
    let mut twice = MembershipIndex::new();
    twice.record(MemberId(7), ChatId(5));
    twice.record(MemberId(7), ChatId(5));
    assert_eq!(twice.list_chats(MemberId(7)), once.list_chats(MemberId(7)));
    assert_eq!(twice.list_chats(MemberId(7)), vec![ChatId(5)]);
    assert_eq!(twice.len(), 1);
}

#[test]
fn forget_after_record_excludes_the_chat() {
    let mut index = MembershipIndex::new();
    index.record(MemberId(7), ChatId(5));
    index.record(MemberId(7), ChatId(6));
    index.forget(MemberId(7), ChatId(5));
    assert!(!index.list_chats(MemberId(7)).contains(&ChatId(5)));
    assert_eq!(index.list_chats(MemberId(7)), vec![ChatId(6)]);
    index.forget(MemberId(7), ChatId(5));
    assert_eq!(index.list_chats(MemberId(7)), vec![ChatId(6)]);
    assert_eq!(index.len(), 1);
}

#[test]
fn forget_of_the_unknown_changes_nothing() {
    let mut index = MembershipIndex::new();
    index.forget(MemberId(1), ChatId(2));
    assert_eq!(index.len(), 0);
    index.record(MemberId(1), ChatId(3));
    index.forget(MemberId(1), ChatId(2));
    index.forget(MemberId(2), ChatId(3));
    assert_eq!(index.list_chats(MemberId(1)), vec![ChatId(3)]);
}

#[test]
fn forgetting_the_last_chat_leaves_an_empty_listing() {
    let mut index = MembershipIndex::new();
    index.record(MemberId(1), ChatId(3));
    index.forget(MemberId(1), ChatId(3));
    assert_eq!(index.list_chats(MemberId(1)), Vec::<ChatId>::new());
    assert_eq!(index.len(), 0);
}

#[test]
fn listing_keeps_members_apart_and_the_order_of_recording() {
    let mut index = MembershipIndex::new();
    index.record(MemberId(1), ChatId(30));
    index.record(MemberId(2), ChatId(30));
    index.record(MemberId(1), ChatId(10));
    index.record(MemberId(2), ChatId(20));
    index.record(MemberId(1), ChatId(20));
    assert_eq!(index.list_chats(MemberId(1)), vec![ChatId(30), ChatId(10), ChatId(20)]);
    assert_eq!(index.list_chats(MemberId(2)), vec![ChatId(30), ChatId(20)]);
    assert_eq!(index.list_chats(MemberId(3)), Vec::<ChatId>::new());
    index.forget(MemberId(1), ChatId(10));
    assert_eq!(index.list_chats(MemberId(1)), vec![ChatId(30), ChatId(20)]);
    assert_eq!(index.list_chats(MemberId(2)), vec![ChatId(30), ChatId(20)]);
}

#[test]
fn record_all_records_each_member_once() {
    let mut index = MembershipIndex::new();
    index.record(MemberId(2), ChatId(9));
    index.record_all(&vec![MemberId(1), MemberId(2), MemberId(1), MemberId(3)], ChatId(9));
    assert_eq!(index.len(), 3);
    assert!(index.contains(MemberId(1), ChatId(9)));
    assert!(index.contains(MemberId(2), ChatId(9)));
    assert!(index.contains(MemberId(3), ChatId(9)));
    index.record_all(&Vec::new(), ChatId(10));
    assert_eq!(index.len(), 3);
}
