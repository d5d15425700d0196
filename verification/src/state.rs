use vstd::prelude::*;

use crate::error::ContractError;

verus! {

/// One stored record: an id assigned by the allocator, the submitter's
/// identity, a free-form topic and a free-form body. Records are immutable
/// once created.
#[derive(Debug, PartialEq, Eq)]
pub struct Message {
    pub id: u128,
    pub owner: String,
    pub topic: String,
    pub message: String,
}

impl Clone for Message {
    fn clone(&self) -> (r: Self)
        ensures
            r == *self,
    {
        Message {
            id: self.id,
            owner: self.owner.clone(),
            topic: self.topic.clone(),
            message: self.message.clone(),
        }
    }
}

/// The ids of `s` are strictly increasing from front to back.
pub open spec fn sorted_by_id(s: Seq<Message>) -> bool {
    forall|i: int, j: int| 0 <= i < j < s.len() ==> s[i].id < s[j].id
}

/// Holds of the records owned by `owner` (exact, case-sensitive equality).
pub open spec fn owned_by(owner: Seq<char>) -> spec_fn(Message) -> bool {
    |m: Message| m.owner@ == owner
}

/// Holds of the records tagged with `topic` (exact, case-sensitive equality).
pub open spec fn on_topic(topic: Seq<char>) -> spec_fn(Message) -> bool {
    |m: Message| m.topic@ == topic
}

/// Some record of `s` carries the id `id`.
pub open spec fn contains_id(s: Seq<Message>, id: u128) -> bool {
    exists|i: int| 0 <= i < s.len() && (#[trigger] s[i]).id == id
}

/// Owns the single monotonically increasing counter. `allocate` hands out
/// the current value and advances the counter by exactly one; the counter
/// starts at zero and is never decreased.
pub struct IdAllocator {
    next: u128,
}

impl IdAllocator {
    /// The id the allocator will hand out next; equal to the number of ids
    /// allocated so far.
    pub closed spec fn current(self) -> u128 {
        self.next
    }

    pub fn new() -> (r: Self)
        ensures
            r.current() == 0,
    {
        IdAllocator { next: 0 }
    }

    /// Reads the counter without advancing it.
    pub fn current_value(&self) -> (r: u128)
        ensures
            r == self.current(),
    {
        self.next
    }

    /// Reads the counter as the fresh id and advances it by one. Fails with
    /// `CounterOverflow`, leaving the counter unchanged, exactly when the
    /// counter cannot be advanced without wrapping.
    pub fn allocate(&mut self) -> (r: Result<u128, ContractError>)
        ensures
            match r {
                Ok(id) => {
                    &&& id == old(self).current()
                    &&& old(self).current() < u128::MAX
                    &&& final(self).current() == old(self).current() + 1
                },
                Err(e) => {
                    &&& e == ContractError::CounterOverflow
                    &&& old(self).current() == u128::MAX
                    &&& *final(self) == *old(self)
                },
            },
    {
        if self.next == u128::MAX {
            Err(ContractError::CounterOverflow)
        } else {
            let id = self.next;
            self.next = self.next + 1;
            Ok(id)
        }
    }
}

/// A durable ordered mapping from identifier to record, modelled as the
/// sequence of records in ascending id order. Insertion only appends; the
/// store never mutates or removes a record.
pub struct MessageStore {
    records: Vec<Message>,
}

impl View for MessageStore {
    type V = Seq<Message>;

    closed spec fn view(&self) -> Seq<Message> {
        self.records@
    }
}

impl MessageStore {
    /// The records are held in strictly ascending id order, so every id is
    /// unique and a full scan visits records in ascending id order.
    pub open spec fn wf(self) -> bool {
        sorted_by_id(self@)
    }

    pub fn new() -> (r: Self)
        ensures
            r.wf(),
            r@ == Seq::<Message>::empty(),
    {
        MessageStore { records: Vec::new() }
    }

    /// Writes a record keyed by `m.id`. The id comes fresh from the
    /// allocator in the same transaction, so it is strictly greater than
    /// every id already stored; the record therefore lands at the end of
    /// the ordered keyspace.
    pub fn insert(&mut self, m: Message)
        requires
            old(self).wf(),
            forall|i: int| 0 <= i < old(self)@.len() ==> (#[trigger] old(self)@[i]).id < m.id,
        ensures
            final(self).wf(),
            final(self)@ == old(self)@.push(m),
    {
        self.records.push(m);
    }

    /// Point lookup: returns the unique record keyed by `id`, or `NotFound`
    /// exactly when no record carries that id.
    pub fn get(&self, id: u128) -> (r: Result<Message, ContractError>)
        requires
            self.wf(),
        ensures
            match r {
                Ok(m) => contains_id(self@, id) && self@.contains(m) && m.id == id,
                Err(e) => e == ContractError::NotFound && !contains_id(self@, id),
            },
    {
        let n = self.records.len();
        let mut k: usize = 0;
        while k < n
            invariant
                n == self.records.len(),
                0 <= k <= n,
                forall|i: int| 0 <= i < k ==> (#[trigger] self@[i]).id != id,
            decreases n - k,
        {
            if self.records[k].id == id {
                let m = self.records[k].clone();
                assert(self@.contains(m)) by {
                    assert(self@[k as int] == m);
                }
                return Ok(m);
            }
            k += 1;
        }
        Err(ContractError::NotFound)
    }

    /// Full scan: every stored record, in ascending id order.
    pub fn list_all(&self) -> (r: Vec<Message>)
        requires
            self.wf(),
        ensures
            r@ == self@,
    {
        let n = self.records.len();
        let mut out: Vec<Message> = Vec::new();
        let mut k: usize = 0;
        while k < n
            invariant
                n == self.records.len(),
                0 <= k <= n,
                out@ == self@.take(k as int),
            decreases n - k,
        {
            out.push(self.records[k].clone());
            assert(self@.take(k + 1 as int) == self@.take(k as int).push(self@[k as int]));
            k += 1;
        }
        assert(self@.take(n as int) == self@);
        out
    }

    /// Full scan restricted to records whose `owner` equals `owner`
    /// exactly (case-sensitive, no normalization), in ascending id order.
    pub fn list_by_owner(&self, owner: &String) -> (r: Vec<Message>)
        requires
            self.wf(),
        ensures
            r@ == self@.filter(owned_by(owner@)),
    {
        let n = self.records.len();
        let mut out: Vec<Message> = Vec::new();
        let mut k: usize = 0;
        while k < n
            invariant
                n == self.records.len(),
                0 <= k <= n,
                out@ == self@.take(k as int).filter(owned_by(owner@)),
            decreases n - k,
        {
            proof {
                assert(self@.take(k + 1 as int) =~= self@.take(k as int).push(self@[k as int]));
                self@.take(k as int).lemma_filter_push(self@[k as int], owned_by(owner@));
            }
            if self.records[k].owner.eq(owner) {
                out.push(self.records[k].clone());
            }
            k += 1;
        }
        assert(self@.take(n as int) =~= self@);
        out
    }

    /// Full scan restricted to records whose `topic` equals `topic`
    /// exactly (case-sensitive, no normalization), in ascending id order.
    pub fn list_by_topic(&self, topic: &String) -> (r: Vec<Message>)
        requires
            self.wf(),
        ensures
            r@ == self@.filter(on_topic(topic@)),
    {
        let n = self.records.len();
        let mut out: Vec<Message> = Vec::new();
        let mut k: usize = 0;
        while k < n
            invariant
                n == self.records.len(),
                0 <= k <= n,
                out@ == self@.take(k as int).filter(on_topic(topic@)),
            decreases n - k,
        {
            proof {
                assert(self@.take(k + 1 as int) =~= self@.take(k as int).push(self@[k as int]));
                self@.take(k as int).lemma_filter_push(self@[k as int], on_topic(topic@));
            }
            if self.records[k].topic.eq(topic) {
                out.push(self.records[k].clone());
            }
            k += 1;
        }
        assert(self@.take(n as int) =~= self@);
        out
    }
}

/// Filtering keeps only records that are in the sequence: every record of
/// `s.filter(pred)` occurs in `s`.
pub proof fn lemma_filter_is_subset(s: Seq<Message>, pred: spec_fn(Message) -> bool)
    ensures
        forall|x: Message| #[trigger] s.filter(pred).contains(x) ==> s.contains(x),
    decreases s.len(),
{
    reveal(Seq::filter);
    if s.len() != 0 {
        let rest = s.drop_last();
        lemma_filter_is_subset(rest, pred);
        assert forall|x: Message| #[trigger] s.filter(pred).contains(x) implies s.contains(x) by {
            if rest.filter(pred).contains(x) {
                let k = choose|k: int| 0 <= k < rest.len() && rest[k] == x;
                assert(s[k] == x);
            } else {
                assert(x == s.last());
                assert(s[s.len() - 1] == x);
            }
        }
    }
}

/// A full scan with a predicate applied in-stream keeps the scan order:
/// filtering a sequence that is in ascending id order yields a sequence in
/// ascending id order.
pub proof fn lemma_filter_preserves_order(s: Seq<Message>, pred: spec_fn(Message) -> bool)
    requires
        sorted_by_id(s),
    ensures
        sorted_by_id(s.filter(pred)),
    decreases s.len(),
{
    reveal(Seq::filter);
    if s.len() != 0 {
        let rest = s.drop_last();
        assert(sorted_by_id(rest)) by {
            assert(forall|i: int| 0 <= i < rest.len() ==> rest[i] == s[i]);
        }
        lemma_filter_preserves_order(rest, pred);
        if pred(s.last()) {
            let out = rest.filter(pred).push(s.last());
            assert(s.filter(pred) == out);
            lemma_filter_is_subset(rest, pred);
            assert forall|i: int, j: int| 0 <= i < j < out.len() implies out[i].id < out[j].id by {
                if j < out.len() - 1 {
                    assert(rest.filter(pred)[i].id < rest.filter(pred)[j].id);
                } else {
                    let x = rest.filter(pred)[i];
                    assert(rest.filter(pred).contains(x));
                    let k = choose|k: int| 0 <= k < rest.len() && rest[k] == x;
                    assert(s[k].id < s.last().id);
                }
            }
        }
    }
}

/// The whole persisted state: the allocator's counter and the ordered
/// store, mutated together in one transaction.
pub struct State {
    pub allocator: IdAllocator,
    pub store: MessageStore,
}

impl View for State {
    type V = Seq<Message>;

    open spec fn view(&self) -> Seq<Message> {
        self.store@
    }
}

impl State {
    /// The ids ever assigned are exactly `0, 1, ..., current() - 1`, in
    /// insertion order: the allocator's counter equals the number of
    /// stored records, and the record at position `i` carries id `i`.
    pub open spec fn wf(self) -> bool {
        &&& self.store.wf()
        &&& self@.len() == self.allocator.current()
        &&& forall|i: int| 0 <= i < self@.len() ==> (#[trigger] self@[i]).id == i
    }

    /// The freshly initialized system: counter at zero, no records.
    pub fn new() -> (r: Self)
        ensures
            r.wf(),
            r@ == Seq::<Message>::empty(),
            r.allocator.current() == 0,
    {
        State { allocator: IdAllocator::new(), store: MessageStore::new() }
    }

    /// Rebuilds the state from its persisted plain parts, accepting them
    /// exactly when they satisfy the state invariant: `records` must hold
    /// the ids `0, 1, ..., next_id - 1` in that order.
    pub fn restore(next_id: u128, records: Vec<Message>) -> (r: Option<State>)
        ensures
            match r {
                Some(s) => {
                    &&& s.wf()
                    &&& s@ == records@
                    &&& s.allocator.current() == next_id
                },
                None => !(records@.len() == next_id && forall|i: int|
                    0 <= i < records@.len() ==> (#[trigger] records@[i]).id == i),
            },
    {
        let n = records.len();
        if !(n as u128 == next_id) {
            return None;
        }
        let mut k: usize = 0;
        while k < n
            invariant
                n == records.len(),
                0 <= k <= n,
                forall|i: int| 0 <= i < k ==> (#[trigger] records@[i]).id == i,
            decreases n - k,
        {
            if !(records[k].id == k as u128) {
                return None;
            }
            k += 1;
        }
        Some(State { allocator: IdAllocator { next: next_id }, store: MessageStore { records } })
    }
}

} // verus!
