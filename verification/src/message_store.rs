//! Where a session keeps the messages it sent, to send them again, and its
//! next sequence numbers.
use vstd::prelude::*;

use std::collections::BTreeMap;
use vstd::std_specs::cmp::OrdSpec;
use vstd::std_specs::iter::IteratorSpec;

use crate::session::session_id::SessionId;
use crate::session::session_schedule::UtcTime;

verus! {

/// The messages of `m` whose sequence numbers lie in `begin ..= end`, in
/// ascending order of their sequence numbers, are `r`.
pub open spec fn stored_between(m: Map<u32, Seq<char>>, begin: u32, end: u32, r: Seq<Seq<char>>) -> bool {
    exists|ks: Seq<u32>|
        {
            &&& ks.len() == r.len()
            &&& forall|i: int, j: int| 0 <= i < j < ks.len() ==> ks[i] < ks[j]
            &&& forall|i: int|
                0 <= i < ks.len() ==> begin <= #[trigger] ks[i] <= end && m.contains_key(ks[i]) && m[ks[i]] == r[i]
            &&& forall|k: u32| begin <= k <= end && #[trigger] m.contains_key(k) ==> ks.contains(k)
        }
}

/// A message kept is read back: a read of a range that holds its sequence
/// number returns it, and a read of a store with no message returns none.
pub proof fn law_read_back_stored(
    m: Map<u32, Seq<char>>,
    k: u32,
    s: Seq<char>,
    begin: u32,
    end: u32,
    r: Seq<Seq<char>>,
    e: Seq<Seq<char>>,
)
    requires
        begin <= k <= end,
        stored_between(m.insert(k, s), begin, end, r),
        stored_between(Map::<u32, Seq<char>>::empty(), begin, end, e),
    ensures
        r.contains(s),
        e.len() == 0,
{
    let m2 = m.insert(k, s);
    let ks = choose|ks: Seq<u32>|
        {
            &&& ks.len() == r.len()
            &&& forall|i: int, j: int| 0 <= i < j < ks.len() ==> ks[i] < ks[j]
            &&& forall|i: int|
                0 <= i < ks.len() ==> begin <= #[trigger] ks[i] <= end && m2.contains_key(ks[i]) && m2[ks[i]] == r[i]
            &&& forall|x: u32| begin <= x <= end && #[trigger] m2.contains_key(x) ==> ks.contains(x)
        };
    assert(m2.contains_key(k));
    assert(ks.contains(k));
    let i = choose|i: int| 0 <= i < ks.len() && ks[i] == k;
    assert(r[i] == s);
    let es = choose|ks: Seq<u32>|
        {
            &&& ks.len() == e.len()
            &&& forall|i: int, j: int| 0 <= i < j < ks.len() ==> ks[i] < ks[j]
            &&& forall|i: int|
                0 <= i < ks.len() ==> begin <= #[trigger] ks[i] <= end && Map::<u32, Seq<char>>::empty().contains_key(
                    ks[i],
                ) && Map::<u32, Seq<char>>::empty()[ks[i]] == e[i]
            &&& forall|x: u32| begin <= x <= end && #[trigger] Map::<u32, Seq<char>>::empty().contains_key(x) ==> ks.contains(x)
        };
    if e.len() > 0 {
        assert(Map::<u32, Seq<char>>::empty().contains_key(es[0]));
    }
}

/// Keeps the messages a session sent, by sequence number, and its next
/// sequence numbers.
pub trait MessageStore: Send {
    /// The messages kept, by sequence number.
    spec fn messages(&self) -> Map<u32, Seq<char>>;

    /// The sequence number of the next message sent.
    spec fn next_sender(&self) -> u32;

    /// The sequence number expected of the next message received.
    spec fn next_target(&self) -> u32;

    /// Forgets the messages; both next sequence numbers become 1.
    fn reset(&mut self)
        ensures
            final(self).messages() == Map::<u32, Seq<char>>::empty(),
            final(self).next_sender() == 1,
            final(self).next_target() == 1,
    ;

    /// When the store was made or last reset, where it knows.
    fn creation_time(&self) -> Option<UtcTime>;

    /// Reloads what the store keeps elsewhere.
    fn refresh(&mut self);

    fn next_sender_msg_seq_num(&self) -> (r: u32)
        ensures
            r == self.next_sender(),
    ;

    fn set_next_sender_msg_seq_num(&mut self, seq_num: u32)
        ensures
            final(self).next_sender() == seq_num,
            final(self).next_target() == old(self).next_target(),
            final(self).messages() == old(self).messages(),
    ;

    fn incr_next_sender_msg_seq_num(&mut self)
        requires
            old(self).next_sender() < u32::MAX,
        ensures
            final(self).next_sender() == old(self).next_sender() + 1,
            final(self).next_target() == old(self).next_target(),
            final(self).messages() == old(self).messages(),
    ;

    fn next_target_msg_seq_num(&self) -> (r: u32)
        ensures
            r == self.next_target(),
    ;

    fn set_next_target_msg_seq_num(&mut self, seq_num: u32)
        ensures
            final(self).next_target() == seq_num,
            final(self).next_sender() == old(self).next_sender(),
            final(self).messages() == old(self).messages(),
    ;

    fn incr_next_target_msg_seq_num(&mut self)
        requires
            old(self).next_target() < u32::MAX,
        ensures
            final(self).next_target() == old(self).next_target() + 1,
            final(self).next_sender() == old(self).next_sender(),
            final(self).messages() == old(self).messages(),
    ;

    /// Keeps `message_string` as the message numbered `msg_seq_num`.
    fn set(&mut self, msg_seq_num: u32, message_string: &str)
        ensures
            final(self).messages() == old(self).messages().insert(msg_seq_num, message_string@),
            final(self).next_sender() == old(self).next_sender(),
            final(self).next_target() == old(self).next_target(),
    ;

    /// The messages numbered `begin_seq_num` to `end_seq_num`, in order.
    fn get(&self, begin_seq_num: u32, end_seq_num: u32) -> (r: Vec<&String>)
        requires
            begin_seq_num < end_seq_num,
        ensures
            stored_between(self.messages(), begin_seq_num, end_seq_num, r@.map_values(|s: &String| s@)),
    ;
}

/// `chrono::Utc::now()`: the present time from the system clock, as its
/// `timestamp` and `timestamp_subsec_nanos`. The clock is read after 1970
/// (`Utc::now` panics otherwise, as the call it stands for does), and the
/// nanoseconds come from a `Duration`, so they are under a second. Which
/// instant it is, nothing here says.
#[verifier::external_body]
fn utc_now() -> (r: UtcTime)
    ensures
        r.secs >= 0,
        r.nanos < 1_000_000_000,
{
    let now = chrono::Utc::now();
    UtcTime { secs: now.timestamp(), nanos: now.timestamp_subsec_nanos() }
}

/// A store that keeps the messages in memory.
pub struct MemoryMessageStore {
    messages: BTreeMap<u32, String>,
    next_sender_msg_seq_num: u32,
    next_target_msg_seq_num: u32,
    creation_time: Option<UtcTime>,
}

impl MemoryMessageStore {
    /// An empty store whose next sequence numbers are 1, made now.
    pub fn new() -> (r: Self)
        ensures
            r.messages() == Map::<u32, Seq<char>>::empty(),
            r.next_sender() == 1,
            r.next_target() == 1,
            r.created_at() matches Some(t) && t.secs >= 0 && t.nanos < 1_000_000_000,
    {
        let r = MemoryMessageStore {
            messages: BTreeMap::new(),
            next_sender_msg_seq_num: 1,
            next_target_msg_seq_num: 1,
            creation_time: Some(utc_now()),
        };
        assert(r.messages() =~= Map::<u32, Seq<char>>::empty());
        r
    }
}

impl MemoryMessageStore {
    /// The instant at which the store was made or last reset, read from the
    /// clock then.
    pub closed spec fn created_at(&self) -> Option<UtcTime> {
        self.creation_time
    }
}

impl MessageStore for MemoryMessageStore {
    closed spec fn messages(&self) -> Map<u32, Seq<char>> {
        self.messages@.map_values(|s: String| s@)
    }

    closed spec fn next_sender(&self) -> u32 {
        self.next_sender_msg_seq_num
    }

    closed spec fn next_target(&self) -> u32 {
        self.next_target_msg_seq_num
    }

    fn reset(&mut self)
        ensures
            final(self).created_at() matches Some(t) && t.secs >= 0 && t.nanos < 1_000_000_000,
    {
        self.messages.clear();
        self.next_sender_msg_seq_num = 1;
        self.next_target_msg_seq_num = 1;
        self.creation_time = Some(utc_now());
        assert(self.messages() =~= Map::<u32, Seq<char>>::empty());
    }

    fn creation_time(&self) -> (r: Option<UtcTime>)
        ensures
            r == self.created_at(),
    {
        self.creation_time
    }

    fn refresh(&mut self) {
    }

    fn next_sender_msg_seq_num(&self) -> u32 {
        self.next_sender_msg_seq_num
    }

    fn set_next_sender_msg_seq_num(&mut self, seq_num: u32) {
        self.next_sender_msg_seq_num = seq_num;
    }

    fn incr_next_sender_msg_seq_num(&mut self) {
        self.next_sender_msg_seq_num = self.next_sender_msg_seq_num + 1;
    }

    fn next_target_msg_seq_num(&self) -> u32 {
        self.next_target_msg_seq_num
    }

    fn set_next_target_msg_seq_num(&mut self, seq_num: u32) {
        self.next_target_msg_seq_num = seq_num;
    }

    fn incr_next_target_msg_seq_num(&mut self) {
        self.next_target_msg_seq_num = self.next_target_msg_seq_num + 1;
    }

    fn set(&mut self, msg_seq_num: u32, message_string: &str) {
        broadcast use vstd::std_specs::btree::group_btree_axioms, vstd::laws_cmp::group_laws_cmp;

        let ghost before = self.messages@;
        self.messages.insert(msg_seq_num, message_string.to_owned());
        assert(self.messages() =~= before.map_values(|s: String| s@).insert(msg_seq_num, message_string@));
    }

    fn get(&self, begin_seq_num: u32, end_seq_num: u32) -> Vec<&String> {
        broadcast use vstd::std_specs::btree::group_btree_axioms, vstd::laws_cmp::group_laws_cmp;

        let ghost m = self.messages@;
        let mut out: Vec<&String> = Vec::new();
        let ghost mut ks: Seq<u32> = Seq::empty();
        for kv in it: self.messages.iter()
            invariant
                m == self.messages@,
                it.seq() == vstd::std_specs::btree::spec_btree_map_iter(&self.messages).remaining(),
                vstd::std_specs::btree::increasing_seq(it.seq().map_values(|kv: (&u32, &String)| *kv.0)),
                ks.len() == out@.len(),
                forall|i: int, j: int| 0 <= i < j < ks.len() ==> ks[i] < ks[j],
                forall|i: int|
                    0 <= i < ks.len() ==> begin_seq_num <= #[trigger] ks[i] <= end_seq_num && m.contains_key(ks[i])
                        && m[ks[i]] == *out@[i],
                forall|i: int, j: int|
                    0 <= i < ks.len() && it.index() <= j < it.seq().len() ==> ks[i] < *it.seq()[j].0,
                forall|j: int|
                    0 <= j < it.index() && begin_seq_num <= *it.seq()[j].0 <= end_seq_num ==> ks.contains(
                        *it.seq()[j].0,
                    ),
        {
            let (k, v) = kv;
            proof {
                assert(vstd::laws_cmp::obeys_cmp::<u32>());
                let keys = it.seq().map_values(|kv: (&u32, &String)| *kv.0);
                assert(kv == it.seq()[it.index()]);
                assert forall|j: int| it.index() < j < it.seq().len() implies *k < *it.seq()[j].0 by {
                    assert(keys[it.index()] == *k);
                    assert(keys[j] == *it.seq()[j].0);
                    vstd::std_specs::btree::axiom_increasing_seq_meaning(keys);
                    assert(keys[it.index()].cmp_spec(&keys[j]) is Less);
                }
            }
            if begin_seq_num <= *k && *k <= end_seq_num {
                out.push(v);
                proof {
                    let old_ks = ks;
                    ks = ks.push(*k);
                    assert(ks[ks.len() - 1] == *k);
                    assert forall|x: u32| old_ks.contains(x) implies ks.contains(x) by {
                        let i = choose|i: int| 0 <= i < old_ks.len() && old_ks[i] == x;
                        assert(ks[i] == x);
                    }
                }
            }
        }
        out
    }
}

/// Makes the stores of sessions: stores in memory.
#[derive(Clone, Debug)]
pub struct DefaultStoreFactory;

impl DefaultStoreFactory {
    pub fn new() -> (r: Self) {
        DefaultStoreFactory
    }

    /// An empty store in memory for the session `_session_id`.
    pub fn create(&self, _session_id: &SessionId) -> (r: MemoryMessageStore)
        ensures
            r.messages() == Map::<u32, Seq<char>>::empty(),
            r.next_sender() == 1,
            r.next_target() == 1,
    {
        MemoryMessageStore::new()
    }
}

} // verus!
