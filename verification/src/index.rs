//! The membership index: for every member, the chats they are known to be in.
//!
//! The index is modelled as the sequence of its memberships in the order in
//! which they were first recorded, without repetition. Its view is the set of
//! those memberships.

use crate::ident::{ChatId, MemberId, Membership};
use vstd::prelude::*;

verus! {

/// `entries` with `entry` added at the end, unless it is already among them.
pub open spec fn recorded(entries: Seq<Membership>, entry: Membership) -> Seq<Membership> {
    if entries.contains(entry) {
        entries
    } else {
        entries.push(entry)
    }
}

/// `entries` without `entry`, the others in their order.
pub open spec fn forgotten(entries: Seq<Membership>, entry: Membership) -> Seq<Membership>
    decreases entries.len(),
{
    if entries.len() == 0 {
        entries
    } else if entries.last() == entry {
        forgotten(entries.drop_last(), entry)
    } else {
        forgotten(entries.drop_last(), entry).push(entries.last())
    }
}

/// The chats of `member` among `entries`, in the order of `entries`.
pub open spec fn chats_listed(entries: Seq<Membership>, member: MemberId) -> Seq<ChatId>
    decreases entries.len(),
{
    if entries.len() == 0 {
        Seq::empty()
    } else if entries.last().member == member {
        chats_listed(entries.drop_last(), member).push(entries.last().chat)
    } else {
        chats_listed(entries.drop_last(), member)
    }
}

/// The chats that the relation `known` holds for `member`.
pub open spec fn chats_of(known: Set<Membership>, member: MemberId) -> Set<ChatId> {
    Set::new(|chat: ChatId| known.contains(Membership { member, chat }))
}

/// `entries` after every member of `members` was recorded in `chat`, first to last.
pub open spec fn recorded_all(
    entries: Seq<Membership>,
    members: Seq<MemberId>,
    chat: ChatId,
) -> Seq<Membership>
    decreases members.len(),
{
    if members.len() == 0 {
        entries
    } else {
        recorded(
            recorded_all(entries, members.drop_last(), chat),
            Membership { member: members.last(), chat },
        )
    }
}

/// Recording keeps the entries free of repetition and adds exactly `entry`.
pub proof fn lemma_recorded(entries: Seq<Membership>, entry: Membership)
    ensures
        entries.no_duplicates() ==> recorded(entries, entry).no_duplicates(),
        recorded(entries, entry).to_set() == entries.to_set().insert(entry),
        recorded(entries, entry).contains(entry),
{
    let after = recorded(entries, entry);
    if entries.contains(entry) {
        assert(after.to_set() =~= entries.to_set().insert(entry));
    } else {
        assert(after[entries.len() as int] == entry);
        assert forall|e: Membership| after.to_set().contains(e) <==> entries.to_set().insert(
            entry,
        ).contains(e) by {
            if after.contains(e) {
                let i = choose|i: int| 0 <= i < after.len() && after[i] == e;
                if i < entries.len() {
                    assert(entries[i] == e);
                }
            }
            if entries.contains(e) {
                let i = choose|i: int| 0 <= i < entries.len() && entries[i] == e;
                assert(after[i] == e);
            }
        }
        assert(after.to_set() =~= entries.to_set().insert(entry));
    }
}

/// What is left after forgetting: every entry but `entry`, each as often as before.
pub proof fn lemma_forgotten(entries: Seq<Membership>, entry: Membership)
    ensures
        !forgotten(entries, entry).contains(entry),
        forall|e: Membership|
            e != entry ==> (#[trigger] forgotten(entries, entry).contains(e) <==> entries.contains(
                e,
            )),
        entries.no_duplicates() ==> forgotten(entries, entry).no_duplicates(),
        forgotten(entries, entry).to_set() == entries.to_set().remove(entry),
        forgotten(entries, entry).len() <= entries.len(),
        !entries.contains(entry) ==> forgotten(entries, entry) == entries,
    decreases entries.len(),
{
    let after = forgotten(entries, entry);
    if entries.len() == 0 {
        assert(after.to_set() =~= entries.to_set().remove(entry));
    } else {
        let front = entries.drop_last();
        let last = entries.last();
        let rest = forgotten(front, entry);
        lemma_forgotten(front, entry);
        assert(entries =~= front.push(last));
        assert forall|e: Membership| entries.contains(e) <==> (front.contains(e) || e == last) by {
            if entries.contains(e) {
                let i = choose|i: int| 0 <= i < entries.len() && entries[i] == e;
                if i < front.len() {
                    assert(front[i] == e);
                }
            }
            if front.contains(e) {
                let i = choose|i: int| 0 <= i < front.len() && front[i] == e;
                assert(entries[i] == e);
            }
            if e == last {
                assert(entries[entries.len() - 1] == e);
            }
        }
        if last == entry {
            assert(after == rest);
        } else {
            assert(after == rest.push(last));
            assert forall|e: Membership| after.contains(e) <==> (rest.contains(e) || e == last) by {
                if after.contains(e) {
                    let i = choose|i: int| 0 <= i < after.len() && after[i] == e;
                    if i < rest.len() {
                        assert(rest[i] == e);
                    }
                }
                if rest.contains(e) {
                    let i = choose|i: int| 0 <= i < rest.len() && rest[i] == e;
                    assert(after[i] == e);
                }
                if e == last {
                    assert(after[after.len() - 1] == e);
                }
            }
            if entries.no_duplicates() {
                assert(front.no_duplicates());
                assert(!front.contains(last)) by {
                    if front.contains(last) {
                        let i = choose|i: int| 0 <= i < front.len() && front[i] == last;
                        assert(entries[i] == entries[entries.len() - 1]);
                    }
                }
                assert(!rest.contains(last));
                assert(after.no_duplicates());
            }
            if !entries.contains(entry) {
                assert(!front.contains(entry));
                assert(after =~= entries);
            }
        }
        assert(after.to_set() =~= entries.to_set().remove(entry));
    }
}

/// Where the entries hold no repetition, forgetting the entry at `at` is removing that place.
pub proof fn lemma_forgotten_at(entries: Seq<Membership>, at: int)
    requires
        entries.no_duplicates(),
        0 <= at < entries.len(),
    ensures
        forgotten(entries, entries[at]) == entries.remove(at),
    decreases entries.len(),
{
    let entry = entries[at];
    let front = entries.drop_last();
    if at == entries.len() - 1 {
        assert(!front.contains(entry)) by {
            if front.contains(entry) {
                let i = choose|i: int| 0 <= i < front.len() && front[i] == entry;
                assert(entries[i] == entries[at]);
            }
        }
        lemma_forgotten(front, entry);
        assert(entries.remove(at) =~= front);
    } else {
        assert(entries.last() != entry);
        assert(front[at] == entry);
        lemma_forgotten_at(front, at);
        assert(entries.remove(at) =~= front.remove(at).push(entries.last()));
    }
}

/// A listing holds exactly the chats that the entries give the member, each once
/// where the entries hold no repetition.
pub proof fn lemma_chats_listed(entries: Seq<Membership>, member: MemberId)
    ensures
        forall|chat: ChatId| #[trigger]
            chats_listed(entries, member).contains(chat) <==> entries.contains(
                Membership { member, chat },
            ),
        chats_listed(entries, member).to_set() == chats_of(entries.to_set(), member),
        entries.no_duplicates() ==> chats_listed(entries, member).no_duplicates(),
        chats_listed(entries, member).len() <= entries.len(),
    decreases entries.len(),
{
    let listing = chats_listed(entries, member);
    if entries.len() == 0 {
        assert(listing.to_set() =~= chats_of(entries.to_set(), member));
    } else {
        let front = entries.drop_last();
        let last = entries.last();
        let rest = chats_listed(front, member);
        lemma_chats_listed(front, member);
        assert forall|chat: ChatId| #[trigger]
            listing.contains(chat) <==> entries.contains(Membership { member, chat }) by {
            let wanted = Membership { member, chat };
            if listing.contains(chat) {
                let i = choose|i: int| 0 <= i < listing.len() && listing[i] == chat;
                if i < rest.len() {
                    assert(rest[i] == chat);
                    assert(rest.contains(chat));
                    let j = choose|j: int| 0 <= j < front.len() && front[j] == wanted;
                    assert(entries[j] == wanted);
                } else {
                    assert(last == wanted);
                    assert(entries[entries.len() - 1] == wanted);
                }
            }
            if entries.contains(wanted) {
                let j = choose|j: int| 0 <= j < entries.len() && entries[j] == wanted;
                if j < front.len() {
                    assert(front[j] == wanted);
                    assert(rest.contains(chat));
                    let i = choose|i: int| 0 <= i < rest.len() && rest[i] == chat;
                    assert(listing[i] == chat);
                } else {
                    assert(listing[listing.len() - 1] == chat);
                }
            }
        }
        assert(listing.to_set() =~= chats_of(entries.to_set(), member));
        if entries.no_duplicates() {
            assert(front.no_duplicates());
            if last.member == member {
                assert(!front.contains(last)) by {
                    if front.contains(last) {
                        let i = choose|i: int| 0 <= i < front.len() && front[i] == last;
                        assert(entries[i] == entries[entries.len() - 1]);
                    }
                }
                assert(last == Membership { member, chat: last.chat });
                assert(!rest.contains(last.chat));
            }
        }
    }
}

/// After recording `members` in `chat` the entries hold what they held and each of those
/// memberships, and nothing else.
pub proof fn lemma_recorded_all(entries: Seq<Membership>, members: Seq<MemberId>, chat: ChatId)
    ensures
        entries.no_duplicates() ==> recorded_all(entries, members, chat).no_duplicates(),
        forall|e: Membership| #[trigger]
            recorded_all(entries, members, chat).contains(e) <==> entries.contains(e) || (e.chat
                == chat && members.contains(e.member)),
    decreases members.len(),
{
    let after = recorded_all(entries, members, chat);
    if members.len() > 0 {
        let front = members.drop_last();
        let mid = recorded_all(entries, front, chat);
        let entry = Membership { member: members.last(), chat };
        lemma_recorded_all(entries, front, chat);
        lemma_recorded(mid, entry);
        assert forall|e: Membership| #[trigger]
            after.contains(e) <==> entries.contains(e) || (e.chat == chat && members.contains(
                e.member,
            )) by {
            assert(after.to_set().contains(e) <==> mid.to_set().insert(entry).contains(e));
            assert(after.contains(e) <==> mid.contains(e) || e == entry);
            if members.contains(e.member) {
                let i = choose|i: int| 0 <= i < members.len() && members[i] == e.member;
                if i < front.len() {
                    assert(front[i] == e.member);
                }
            }
            if front.contains(e.member) {
                let i = choose|i: int| 0 <= i < front.len() && front[i] == e.member;
                assert(members[i] == e.member);
            }
            if e == entry {
                assert(members[members.len() - 1] == e.member);
            }
        }
    }
}

/// Once a membership was forgotten, the member's listing is without the chat, whatever was
/// recorded before, and forgetting it once more changes nothing.
pub proof fn law_forget_after_record(entries: Seq<Membership>, member: MemberId, chat: ChatId)
    ensures
        ({
            let entry = Membership { member, chat };
            let once = forgotten(recorded(entries, entry), entry);
            let again = forgotten(once, entry);
            &&& !chats_listed(once, member).contains(chat)
            &&& !chats_of(once.to_set(), member).contains(chat)
            &&& again == once
            &&& chats_listed(again, member) == chats_listed(once, member)
        }),
        ({
            let entry = Membership { member, chat };
            let once = forgotten(entries, entry);
            let again = forgotten(once, entry);
            &&& !chats_listed(once, member).contains(chat)
            &&& !chats_of(once.to_set(), member).contains(chat)
            &&& again == once
        }),
{
    let entry = Membership { member, chat };
    let with = recorded(entries, entry);
    lemma_forgotten(with, entry);
    lemma_forgotten(forgotten(with, entry), entry);
    lemma_chats_listed(forgotten(with, entry), member);
    lemma_forgotten(entries, entry);
    lemma_forgotten(forgotten(entries, entry), entry);
    lemma_chats_listed(forgotten(entries, entry), member);
}

/// Recording a membership twice leaves the index, and the member's listing, as recording
/// it once does.
pub proof fn law_record_idempotent(entries: Seq<Membership>, member: MemberId, chat: ChatId)
    ensures
        ({
            let entry = Membership { member, chat };
            let once = recorded(entries, entry);
            let twice = recorded(once, entry);
            &&& twice == once
            &&& chats_listed(twice, member) == chats_listed(once, member)
            &&& chats_of(twice.to_set(), member) == chats_of(once.to_set(), member)
        }),
{
    lemma_recorded(entries, Membership { member, chat });
}

/// The membership index.
pub struct MembershipIndex {
    pairs: Vec<Membership>,
}

impl View for MembershipIndex {
    type V = Set<Membership>;

    /// The memberships that the index holds, as a relation.
    open spec fn view(&self) -> Set<Membership> {
        self.entries().to_set()
    }
}

impl MembershipIndex {
    /// The memberships in the order in which they were first recorded.
    pub closed spec fn entries(&self) -> Seq<Membership> {
        self.pairs@
    }

    /// No membership is held twice.
    #[verifier::type_invariant]
    pub open spec fn unique(self) -> bool {
        self.entries().no_duplicates()
    }

    /// The chats that the index holds for `member`, as a set.
    pub open spec fn chats(&self, member: MemberId) -> Set<ChatId> {
        chats_of(self@, member)
    }

    /// An index that knows no member.
    pub fn new() -> (index: MembershipIndex)
        ensures
            index.entries() == Seq::<Membership>::empty(),
            index@ == Set::<Membership>::empty(),
            index.unique(),
    {
        let index = MembershipIndex { pairs: Vec::new() };
        assert(index.entries().to_set() =~= Set::<Membership>::empty());
        index
    }

    /// The number of memberships held.
    pub fn len(&self) -> (n: usize)
        ensures
            n == self.entries().len(),
            n == self@.len(),
    {
        proof {
            use_type_invariant(self);
            self.pairs@.unique_seq_to_set();
        }
        self.pairs.len()
    }

    /// Whether `member` is known to be in `chat`.
    pub fn contains(&self, member: MemberId, chat: ChatId) -> (found: bool)
        ensures
            found == self.entries().contains(Membership { member, chat }),
            found == self@.contains(Membership { member, chat }),
            found == self.chats(member).contains(chat),
    {
        self.position(Membership { member, chat }).is_some()
    }

    /// The place of `entry` among the entries, if it is there.
    fn position(&self, entry: Membership) -> (place: Option<usize>)
        ensures
            match place {
                Some(at) => at < self.entries().len() && self.entries()[at as int] == entry,
                None => !self.entries().contains(entry),
            },
    {
        let n = self.pairs.len();
        let mut i: usize = 0;
        while i < n
            invariant
                n == self.pairs@.len(),
                i <= n,
                forall|j: int| 0 <= j < i ==> self.pairs@[j] != entry,
            decreases n - i,
        {
            if self.pairs[i] == entry {
                return Some(i);
            }
            i += 1;
        }
        None
    }

    /// Adds `chat` to the chats of `member`. Recording what is already known changes nothing.
    pub fn record(&mut self, member: MemberId, chat: ChatId)
        ensures
            final(self).entries() == recorded(old(self).entries(), Membership { member, chat }),
            final(self)@ == old(self)@.insert(Membership { member, chat }),
            final(self).chats(member) == old(self).chats(member).insert(chat),
            forall|other: MemberId|
                other != member ==> final(self).chats(other) == old(self).chats(other),
            final(self).unique(),
    {
        let entry = Membership { member, chat };
        proof {
            use_type_invariant(&*self);
            lemma_recorded(self.pairs@, entry);
        }
        if self.position(entry).is_none() {
            let mut pairs: Vec<Membership> = Vec::new();
            std::mem::swap(&mut self.pairs, &mut pairs);
            pairs.push(entry);
            self.pairs = pairs;
        }
        proof {
            let before = old(self)@;
            let after = before.insert(entry);
            assert(chats_of(after, member) =~= chats_of(before, member).insert(chat));
            assert forall|other: MemberId| other != member implies chats_of(after, other)
                == chats_of(before, other) by {
                assert(chats_of(after, other) =~= chats_of(before, other));
            }
        }
    }

    /// Removes `chat` from the chats of `member`. Forgetting what is not known changes nothing.
    pub fn forget(&mut self, member: MemberId, chat: ChatId)
        ensures
            final(self).entries() == forgotten(old(self).entries(), Membership { member, chat }),
            final(self)@ == old(self)@.remove(Membership { member, chat }),
            final(self).chats(member) == old(self).chats(member).remove(chat),
            forall|other: MemberId|
                other != member ==> final(self).chats(other) == old(self).chats(other),
            final(self).unique(),
    {
        let entry = Membership { member, chat };
        proof {
            use_type_invariant(&*self);
            lemma_forgotten(self.pairs@, entry);
        }
        match self.position(entry) {
            Some(at) => {
                proof {
                    lemma_forgotten_at(self.pairs@, at as int);
                }
                let mut pairs: Vec<Membership> = Vec::new();
                std::mem::swap(&mut self.pairs, &mut pairs);
                pairs.remove(at);
                self.pairs = pairs;
            },
            None => {},
        }
        proof {
            let before = old(self)@;
            let after = before.remove(entry);
            assert(chats_of(after, member) =~= chats_of(before, member).remove(chat));
            assert forall|other: MemberId| other != member implies chats_of(after, other)
                == chats_of(before, other) by {
                assert(chats_of(after, other) =~= chats_of(before, other));
            }
        }
    }

    /// The chats that `member` is known to be in, each once, oldest record first.
    /// Empty for a member that was never seen.
    pub fn list_chats(&self, member: MemberId) -> (chats: Vec<ChatId>)
        ensures
            chats@ == chats_listed(self.entries(), member),
            chats@.no_duplicates(),
            chats@.to_set() == self.chats(member),
    {
        let n = self.pairs.len();
        let mut chats: Vec<ChatId> = Vec::new();
        let mut i: usize = 0;
        while i < n
            invariant
                n == self.pairs@.len(),
                i <= n,
                chats@ == chats_listed(self.pairs@.take(i as int), member),
            decreases n - i,
        {
            let entry = self.pairs[i];
            proof {
                assert(self.pairs@.take(i + 1).drop_last() =~= self.pairs@.take(i as int));
            }
            if entry.member == member {
                chats.push(entry.chat);
            }
            i += 1;
        }
        proof {
            use_type_invariant(self);
            assert(self.pairs@.take(n as int) =~= self.pairs@);
            lemma_chats_listed(self.pairs@, member);
        }
        chats
    }

    /// Records every member of `members` in `chat`, first to last. This brings the index
    /// in line with a chat whose members were listed.
    pub fn record_all(&mut self, members: &Vec<MemberId>, chat: ChatId)
        ensures
            final(self).entries() == recorded_all(old(self).entries(), members@, chat),
            forall|e: Membership| #[trigger]
                final(self)@.contains(e) <==> old(self)@.contains(e) || (e.chat == chat
                    && members@.contains(e.member)),
            final(self).unique(),
    {
        let n = members.len();
        let mut i: usize = 0;
        while i < n
            invariant
                n == members@.len(),
                i <= n,
                self.entries() == recorded_all(old(self).entries(), members@.take(i as int), chat),
            decreases n - i,
        {
            proof {
                assert(members@.take(i + 1).drop_last() =~= members@.take(i as int));
            }
            self.record(members[i], chat);
            i += 1;
        }
        proof {
            assert(members@.take(n as int) =~= members@);
            use_type_invariant(&*self);
            lemma_recorded_all(old(self).entries(), members@, chat);
        }
    }
}

} // verus!
