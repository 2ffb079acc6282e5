//! How the index is laid out in a store of named sets: one set per member, named by a
//! fixed prefix and the member's number in decimal, holding the numbers of the chats.

use crate::engine::entries_after;
use crate::ident::{ChatId, MemberId, Membership};
use crate::index::{chats_listed, lemma_chats_listed, lemma_forgotten, lemma_recorded};
use crate::interpreter::StepView;
use vstd::prelude::*;
use vstd::string::StringExecFns;

verus! {

/// The character of the digit `d`.
pub open spec fn digit(d: int) -> char {
    if d == 0 {
        '0'
    } else if d == 1 {
        '1'
    } else if d == 2 {
        '2'
    } else if d == 3 {
        '3'
    } else if d == 4 {
        '4'
    } else if d == 5 {
        '5'
    } else if d == 6 {
        '6'
    } else if d == 7 {
        '7'
    } else if d == 8 {
        '8'
    } else {
        '9'
    }
}

/// The digit that `c` is the character of; 0 for any other character.
pub open spec fn digit_value(c: char) -> int {
    if c == '1' {
        1
    } else if c == '2' {
        2
    } else if c == '3' {
        3
    } else if c == '4' {
        4
    } else if c == '5' {
        5
    } else if c == '6' {
        6
    } else if c == '7' {
        7
    } else if c == '8' {
        8
    } else if c == '9' {
        9
    } else {
        0
    }
}

/// The decimal digits of `n`, the highest first, without leading zeros.
pub open spec fn digits(n: nat) -> Seq<char>
    decreases n,
{
    if n < 10 {
        seq![digit(n as int)]
    } else {
        digits(n / 10).push(digit((n % 10) as int))
    }
}

/// The number that a sequence of digits stands for.
pub open spec fn number(s: Seq<char>) -> int
    decreases s.len(),
{
    if s.len() == 0 {
        0
    } else {
        number(s.drop_last()) * 10 + digit_value(s.last())
    }
}

/// `n` in decimal, with a minus sign before it where it is negative.
pub open spec fn decimal(n: int) -> Seq<char> {
    if n < 0 {
        seq!['-'] + digits((-n) as nat)
    } else {
        digits(n as nat)
    }
}

/// What every key starts with.
pub open spec fn key_prefix() -> Seq<char> {
    "chats_"@
}

/// The name of the set that holds the chats of `member`.
pub open spec fn key_of(member: MemberId) -> Seq<char> {
    key_prefix() + decimal(member.0 as int)
}

/// Digits are never empty, hold no minus sign, and stand for the number they were made from.
pub proof fn lemma_digits(n: nat)
    ensures
        digits(n).len() >= 1,
        forall|i: int| 0 <= i < digits(n).len() ==> #[trigger] digits(n)[i] != '-',
        number(digits(n)) == n,
    decreases n,
{
    if n < 10 {
        let s = digits(n);
        assert(s.drop_last() =~= Seq::<char>::empty());
        assert(number(s.drop_last()) == 0);
        assert(digit_value(digit(n as int)) == n);
    } else {
        lemma_digits(n / 10);
        let s = digits(n);
        assert(s.drop_last() =~= digits(n / 10));
        assert(digit_value(digit((n % 10) as int)) == n % 10);
    }
}

/// Two numbers with the same decimal form are the same number.
pub proof fn lemma_decimal_injective(a: int, b: int)
    requires
        decimal(a) == decimal(b),
    ensures
        a == b,
{
    let na: nat = if a < 0 { (-a) as nat } else { a as nat };
    let nb: nat = if b < 0 { (-b) as nat } else { b as nat };
    lemma_digits(na);
    lemma_digits(nb);
    if a < 0 && b < 0 {
        assert(digits(na) =~= decimal(a).skip(1));
        assert(digits(nb) =~= decimal(b).skip(1));
    } else if a < 0 {
        assert(decimal(a)[0] == '-');
        assert(decimal(b)[0] == digits(nb)[0]);
    } else if b < 0 {
        assert(decimal(b)[0] == '-');
        assert(decimal(a)[0] == digits(na)[0]);
    }
}

/// No two members share a key.
pub proof fn law_keys_distinct(a: MemberId, b: MemberId)
    requires
        a != b,
    ensures
        key_of(a) != key_of(b),
{
    if key_of(a) == key_of(b) {
        let n = key_prefix().len() as int;
        assert(decimal(a.0 as int) =~= key_of(a).skip(n));
        assert(decimal(b.0 as int) =~= key_of(b).skip(n));
        lemma_decimal_injective(a.0 as int, b.0 as int);
    }
}

/// The digit `d` as a string.
fn digit_str(d: u64) -> (s: &'static str)
    requires
        d < 10,
    ensures
        s@ == seq![digit(d as int)],
{
    proof {
        reveal_strlit("0");
        reveal_strlit("1");
        reveal_strlit("2");
        reveal_strlit("3");
        reveal_strlit("4");
        reveal_strlit("5");
        reveal_strlit("6");
        reveal_strlit("7");
        reveal_strlit("8");
        reveal_strlit("9");
    }
    let s = if d == 0 {
        "0"
    } else if d == 1 {
        "1"
    } else if d == 2 {
        "2"
    } else if d == 3 {
        "3"
    } else if d == 4 {
        "4"
    } else if d == 5 {
        "5"
    } else if d == 6 {
        "6"
    } else if d == 7 {
        "7"
    } else if d == 8 {
        "8"
    } else {
        "9"
    };
    proof {
        assert(s@ =~= seq![digit(d as int)]);
    }
    s
}

/// Appends the decimal digits of `n` to `out`.
fn push_digits(out: &mut String, n: u64)
    ensures
        final(out)@ == old(out)@ + digits(n as nat),
    decreases n,
{
    if n >= 10 {
        push_digits(out, n / 10);
    }
    out.append(digit_str(n % 10));
    proof {
        if n >= 10 {
            assert(old(out)@ + digits((n / 10) as nat) + seq![digit((n % 10) as int)] =~= old(
                out,
            )@ + digits(n as nat));
        }
    }
}

/// Writes `n` in decimal.
pub fn decimal_text(n: i64) -> (text: String)
    ensures
        text@ == decimal(n as int),
{
    let mut text = String::new();
    if n < 0 {
        proof {
            reveal_strlit("-");
        }
        text.append("-");
        let magnitude: u64 = ((-(n + 1)) as u64) + 1;
        push_digits(&mut text, magnitude);
        proof {
            assert("-"@ =~= seq!['-']);
            assert(text@ =~= decimal(n as int));
        }
    } else {
        push_digits(&mut text, n as u64);
        proof {
            assert(text@ =~= decimal(n as int));
        }
    }
    text
}

/// The name of the set that holds the chats of `member`.
pub fn member_key(member: MemberId) -> (key: String)
    ensures
        key@ == key_of(member),
{
    let mut key = String::from_str("chats_");
    let suffix = decimal_text(member.0);
    key.append(suffix.as_str());
    key
}

/// The set that `store` holds under `key`. A store is a map from names to sets of numbers;
/// a name that it lacks names the empty set.
pub open spec fn set_at(store: Map<Seq<char>, Set<int>>, key: Seq<char>) -> Set<int> {
    if store.dom().contains(key) {
        store[key]
    } else {
        Set::empty()
    }
}

/// The store after `n` was added to the set under `key`.
pub open spec fn added(store: Map<Seq<char>, Set<int>>, key: Seq<char>, n: int) -> Map<
    Seq<char>,
    Set<int>,
> {
    store.insert(key, set_at(store, key).insert(n))
}

/// The store after `n` was removed from the set under `key`.
pub open spec fn removed(store: Map<Seq<char>, Set<int>>, key: Seq<char>, n: int) -> Map<
    Seq<char>,
    Set<int>,
> {
    store.insert(key, set_at(store, key).remove(n))
}

/// The numbers of the chats that the relation `known` holds for `member`.
pub open spec fn chat_numbers(known: Set<Membership>, member: MemberId) -> Set<int> {
    Set::new(
        |n: int|
            i64::MIN <= n <= i64::MAX && known.contains(
                Membership { member, chat: ChatId(n as i64) },
            ),
    )
}

/// Whether `store` is laid out as the relation `known`: under the key of each member it
/// holds the numbers of that member's chats.
pub open spec fn laid_out(store: Map<Seq<char>, Set<int>>, known: Set<Membership>) -> bool {
    forall|member: MemberId| #[trigger]
        set_at(store, key_of(member)) == chat_numbers(known, member)
}

/// What `step` does to the store: a `Record` adds the chat's number under the member's key,
/// a `Forget` removes it, and no other step writes.
pub open spec fn store_after(store: Map<Seq<char>, Set<int>>, step: StepView) -> Map<
    Seq<char>,
    Set<int>,
> {
    match step {
        StepView::Record(entry) => added(store, key_of(entry.member), entry.chat.0 as int),
        StepView::Forget(entry) => removed(store, key_of(entry.member), entry.chat.0 as int),
        _ => store,
    }
}

/// The numbers of `chats`, in their order.
pub open spec fn numbers_of(chats: Seq<ChatId>) -> Seq<int> {
    Seq::new(chats.len(), |i: int| chats[i].0 as int)
}

/// A store that is laid out as the index stays so when a membership is recorded in both.
pub proof fn law_record_laid_out(
    store: Map<Seq<char>, Set<int>>,
    known: Set<Membership>,
    entry: Membership,
)
    requires
        laid_out(store, known),
    ensures
        laid_out(added(store, key_of(entry.member), entry.chat.0 as int), known.insert(entry)),
{
    let after = added(store, key_of(entry.member), entry.chat.0 as int);
    assert forall|member: MemberId| #[trigger]
        set_at(after, key_of(member)) == chat_numbers(known.insert(entry), member) by {
        assert(set_at(store, key_of(member)) == chat_numbers(known, member));
        if member != entry.member {
            law_keys_distinct(member, entry.member);
        }
        assert(set_at(after, key_of(member)) =~= chat_numbers(known.insert(entry), member));
    }
}

/// A store that is laid out as the index stays so when a membership is forgotten in both.
pub proof fn law_forget_laid_out(
    store: Map<Seq<char>, Set<int>>,
    known: Set<Membership>,
    entry: Membership,
)
    requires
        laid_out(store, known),
    ensures
        laid_out(removed(store, key_of(entry.member), entry.chat.0 as int), known.remove(entry)),
{
    let after = removed(store, key_of(entry.member), entry.chat.0 as int);
    assert forall|member: MemberId| #[trigger]
        set_at(after, key_of(member)) == chat_numbers(known.remove(entry), member) by {
        assert(set_at(store, key_of(member)) == chat_numbers(known, member));
        if member != entry.member {
            law_keys_distinct(member, entry.member);
        }
        assert(set_at(after, key_of(member)) =~= chat_numbers(known.remove(entry), member));
    }
}

/// A store that is laid out as the index stays so under every step, and the set under a
/// member's key holds exactly the numbers of the chats that the index lists for them.
pub proof fn law_step_laid_out(
    store: Map<Seq<char>, Set<int>>,
    entries: Seq<Membership>,
    step: StepView,
)
    requires
        laid_out(store, entries.to_set()),
    ensures
        laid_out(store_after(store, step), entries_after(entries, step).to_set()),
        forall|member: MemberId| #[trigger]
            set_at(store, key_of(member)) == numbers_of(chats_listed(entries, member)).to_set(),
{
    match step {
        StepView::Record(entry) => {
            lemma_recorded(entries, entry);
            law_record_laid_out(store, entries.to_set(), entry);
        },
        StepView::Forget(entry) => {
            lemma_forgotten(entries, entry);
            law_forget_laid_out(store, entries.to_set(), entry);
        },
        _ => {},
    }
    assert forall|member: MemberId| #[trigger]
        set_at(store, key_of(member)) == numbers_of(chats_listed(entries, member)).to_set() by {
        let listed = chats_listed(entries, member);
        let numbers = numbers_of(listed);
        lemma_chats_listed(entries, member);
        assert(set_at(store, key_of(member)) == chat_numbers(entries.to_set(), member));
        assert forall|n: int|
            numbers.to_set().contains(n) <==> chat_numbers(entries.to_set(), member).contains(
                n,
            ) by {
            if numbers.contains(n) {
                let i = choose|i: int| 0 <= i < numbers.len() && numbers[i] == n;
                assert(listed.contains(listed[i]));
                assert(ChatId(n as i64) == listed[i]);
            }
            if chat_numbers(entries.to_set(), member).contains(n) {
                let chat = ChatId(n as i64);
                assert(listed.contains(chat));
                let i = choose|i: int| 0 <= i < listed.len() && listed[i] == chat;
                assert(numbers[i] == n);
            }
        }
        assert(numbers.to_set() =~= chat_numbers(entries.to_set(), member));
    }
}

} // verus!
