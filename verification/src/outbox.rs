//! The bounded outbox between the simulation worker and the consumer: a
//! first-in, first-out queue with a fixed capacity and a stated policy for
//! the moment it is full. Whatever is dropped is counted, and the count
//! travels with the next message that the consumer takes: no gap is silent.

use std::collections::VecDeque;
use vstd::prelude::*;

verus! {

/// What happens to a message that is offered to a full outbox.
#[derive(Clone, Copy, Debug, PartialEq, Eq, Structural)]
pub enum OverflowPolicy {
    /// The message is handed back; the worker waits and offers it again.
    Block,
    /// The oldest queued message leaves to make room.
    DropOldest,
    /// The offered message is dropped.
    DropNewest,
}

/// What became of an offered message.
#[derive(Clone, Debug, PartialEq, Eq)]
pub enum Offer<T> {
    /// It was queued; nothing was lost.
    Accepted,
    /// It was queued, and this message, the oldest, was dropped for it.
    Evicted(T),
    /// It was dropped.
    Dropped(T),
    /// It was handed back: the outbox is full and drops nothing.
    Refused(T),
}

impl<T> Offer<T> {
    /// Whether the offered message is now in the queue.
    pub open spec fn is_queued(self) -> bool {
        self is Accepted || self is Evicted
    }

    /// Whether the offered message is now in the queue.
    pub fn queued(&self) -> (queued: bool)
        ensures
            queued == self.is_queued(),
    {
        match self {
            Offer::Accepted => true,
            Offer::Evicted(_) => true,
            Offer::Dropped(_) => false,
            Offer::Refused(_) => false,
        }
    }
}

/// A queued message, and the number of messages that were dropped between
/// the one queued before it and itself.
#[derive(Clone, Debug, PartialEq, Eq)]
pub struct Queued<T> {
    pub skipped: u64,
    pub item: T,
}

/// A message as the consumer takes it, and the number of messages that were
/// dropped since the one it took before.
#[derive(Clone, Debug, PartialEq, Eq)]
pub struct Delivery<T> {
    pub skipped: u64,
    pub item: T,
}

/// `n + 1`, held at the largest count.
pub open spec fn bump(n: u64) -> u64 {
    if n < u64::MAX {
        (n + 1) as u64
    } else {
        n
    }
}

/// `a + b`, held at the largest count.
pub open spec fn capped_sum(a: u64, b: u64) -> u64 {
    if a + b <= u64::MAX {
        (a + b) as u64
    } else {
        u64::MAX
    }
}

/// The state of an outbox, as contracts see it.
pub struct OutboxModel<T> {
    pub capacity: usize,
    pub policy: OverflowPolicy,
    /// Messages dropped in front of the queue since the last delivery.
    pub front_gap: u64,
    /// The queued messages, oldest first.
    pub queue: Seq<Queued<T>>,
    /// Messages dropped behind the queue since the last message was queued.
    pub pending: u64,
}

impl<T> OutboxModel<T> {
    /// The queue holds no more than the capacity, which is at least one.
    pub open spec fn wf(self) -> bool {
        0 < self.capacity && self.queue.len() <= self.capacity
    }

    /// Whether there is no room for another message.
    pub open spec fn full(self) -> bool {
        self.queue.len() >= self.capacity
    }

    /// The queued messages without their counts, oldest first.
    pub open spec fn items(self) -> Seq<T> {
        Seq::new(self.queue.len(), |i: int| self.queue[i].item)
    }

    /// The state after `item` was offered under `policy`, and what became of
    /// the item.
    pub open spec fn offered_under(self, item: T, policy: OverflowPolicy) -> (OutboxModel<T>, Offer<T>) {
        if !self.full() {
            (
                OutboxModel {
                    queue: self.queue.push(Queued { skipped: self.pending, item }),
                    pending: 0,
                    ..self
                },
                Offer::Accepted,
            )
        } else {
            match policy {
                OverflowPolicy::Block => (self, Offer::Refused(item)),
                OverflowPolicy::DropNewest => (
                    OutboxModel { pending: bump(self.pending), ..self },
                    Offer::Dropped(item),
                ),
                OverflowPolicy::DropOldest => (
                    OutboxModel {
                        front_gap: bump(capped_sum(self.front_gap, self.queue[0].skipped)),
                        queue: self.queue.drop_first().push(Queued { skipped: self.pending, item }),
                        pending: 0,
                        ..self
                    },
                    Offer::Evicted(self.queue[0].item),
                ),
            }
        }
    }

    /// The state after `item` was offered, and what became of the item.
    pub open spec fn offered(self, item: T) -> (OutboxModel<T>, Offer<T>) {
        self.offered_under(item, self.policy)
    }

    /// The state after an item that must not be lost was offered, and what
    /// became of it: where the policy would drop the item itself, it is
    /// handed back instead.
    pub open spec fn offered_for_good(self, item: T) -> (OutboxModel<T>, Offer<T>) {
        self.offered_under(
            item,
            if self.policy == OverflowPolicy::DropNewest {
                OverflowPolicy::Block
            } else {
                self.policy
            },
        )
    }

    /// The state after the consumer took a message, and what it took.
    pub open spec fn taken(self) -> (OutboxModel<T>, Option<Delivery<T>>) {
        if self.queue.len() == 0 {
            (self, None)
        } else {
            (
                OutboxModel { front_gap: 0, queue: self.queue.drop_first(), ..self },
                Some(
                    Delivery {
                        skipped: capped_sum(self.front_gap, self.queue[0].skipped),
                        item: self.queue[0].item,
                    },
                ),
            )
        }
    }

    /// The state after the items of `burst` were offered one after the
    /// other.
    pub open spec fn offered_all(self, burst: Seq<T>) -> OutboxModel<T>
        decreases burst.len(),
    {
        if burst.len() == 0 {
            self
        } else {
            self.offered_all(burst.drop_last()).offered(burst.last()).0
        }
    }
}

/// The bounded queue of messages for the consumer.
#[derive(Debug)]
pub struct Outbox<T> {
    capacity: usize,
    policy: OverflowPolicy,
    front_gap: u64,
    queue: VecDeque<Queued<T>>,
    pending: u64,
}

impl<T> View for Outbox<T> {
    type V = OutboxModel<T>;

    closed spec fn view(&self) -> OutboxModel<T> {
        OutboxModel {
            capacity: self.capacity,
            policy: self.policy,
            front_gap: self.front_gap,
            queue: self.queue@,
            pending: self.pending,
        }
    }
}

/// `n + 1`, held at the largest count.
fn bumped(n: u64) -> (r: u64)
    ensures
        r == bump(n),
{
    if n < u64::MAX {
        n + 1
    } else {
        n
    }
}

/// `a + b`, held at the largest count.
fn capped(a: u64, b: u64) -> (r: u64)
    ensures
        r == capped_sum(a, b),
{
    if a <= u64::MAX - b {
        a + b
    } else {
        u64::MAX
    }
}

impl<T> Outbox<T> {
    /// An empty outbox for up to `capacity` messages. An outbox without
    /// room for a single message is not made.
    pub fn new(capacity: usize, policy: OverflowPolicy) -> (outbox: Option<Outbox<T>>)
        ensures
            capacity == 0 <==> outbox is None,
            outbox matches Some(o) ==> o@ == (OutboxModel {
                capacity,
                policy,
                front_gap: 0,
                queue: Seq::<Queued<T>>::empty(),
                pending: 0,
            }),
    {
        if capacity == 0 {
            None
        } else {
            Some(Outbox { capacity, policy, front_gap: 0, queue: VecDeque::new(), pending: 0 })
        }
    }

    /// The number of queued messages.
    pub fn len(&self) -> (n: usize)
        ensures
            n == self@.queue.len(),
    {
        self.queue.len()
    }

    /// The largest number of messages that can be queued.
    pub fn capacity(&self) -> (n: usize)
        ensures
            n == self@.capacity,
    {
        self.capacity
    }

    /// What happens to a message that is offered when the outbox is full.
    pub fn policy(&self) -> (policy: OverflowPolicy)
        ensures
            policy == self@.policy,
    {
        self.policy
    }

    /// Whether there is no room for another message.
    pub fn is_full(&self) -> (full: bool)
        ensures
            full == self@.full(),
    {
        self.queue.len() >= self.capacity
    }

    /// Offers a message under a policy that need not be the outbox's own.
    fn offer_under(&mut self, item: T, policy: OverflowPolicy) -> (outcome: Offer<T>)
        requires
            old(self)@.wf(),
        ensures
            final(self)@.wf(),
            (final(self)@, outcome) == old(self)@.offered_under(item, policy),
    {
        if self.queue.len() < self.capacity {
            self.queue.push_back(Queued { skipped: self.pending, item });
            self.pending = 0;
            return Offer::Accepted;
        }
        match policy {
            OverflowPolicy::Block => Offer::Refused(item),
            OverflowPolicy::DropNewest => {
                self.pending = bumped(self.pending);
                Offer::Dropped(item)
            },
            OverflowPolicy::DropOldest => {
                let ghost before = self.queue@;
                let oldest = self.queue.pop_front().unwrap();
                assert(self.queue@ =~= before.drop_first());
                self.front_gap = bumped(capped(self.front_gap, oldest.skipped));
                self.queue.push_back(Queued { skipped: self.pending, item });
                self.pending = 0;
                Offer::Evicted(oldest.item)
            },
        }
    }

    /// Offers a message. With room it is queued; in a full outbox the policy
    /// decides.
    pub fn offer(&mut self, item: T) -> (outcome: Offer<T>)
        requires
            old(self)@.wf(),
        ensures
            final(self)@.wf(),
            (final(self)@, outcome) == old(self)@.offered(item),
    {
        let policy = self.policy;
        self.offer_under(item, policy)
    }

    /// Offers a message that must not be lost, such as the terminal message
    /// of a run: where the policy would drop the message itself, it is handed
    /// back instead, to be offered again.
    pub fn offer_for_good(&mut self, item: T) -> (outcome: Offer<T>)
        requires
            old(self)@.wf(),
        ensures
            final(self)@.wf(),
            (final(self)@, outcome) == old(self)@.offered_for_good(item),
            !(outcome is Dropped),
    {
        let policy = match self.policy {
            OverflowPolicy::DropNewest => OverflowPolicy::Block,
            other => other,
        };
        self.offer_under(item, policy)
    }

    /// Takes the oldest message, together with the number of messages that
    /// were dropped since the last one taken.
    pub fn take(&mut self) -> (delivery: Option<Delivery<T>>)
        requires
            old(self)@.wf(),
        ensures
            final(self)@.wf(),
            (final(self)@, delivery) == old(self)@.taken(),
    {
        let ghost before = self.queue@;
        match self.queue.pop_front() {
            None => None,
            Some(oldest) => {
                assert(self.queue@ =~= before.drop_first());
                let skipped = capped(self.front_gap, oldest.skipped);
                self.front_gap = 0;
                Some(Delivery { skipped, item: oldest.item })
            },
        }
    }
}

/// The number of messages that a queue stands for: the queued ones and the
/// ones dropped between them.
pub open spec fn owed_in<T>(queue: Seq<Queued<T>>) -> nat
    decreases queue.len(),
{
    if queue.len() == 0 {
        0
    } else {
        (owed_in(queue.drop_last()) + queue.last().skipped + 1) as nat
    }
}

impl<T> OutboxModel<T> {
    /// The number of messages that were offered and not handed back, and
    /// that the consumer has neither taken nor been told of as dropped.
    pub open spec fn owed(self) -> nat {
        (self.front_gap + owed_in(self.queue) + self.pending) as nat
    }
}

/// What a queue stands for is what its first message and the rest stand for.
proof fn lemma_owed_from_front<T>(queue: Seq<Queued<T>>)
    requires
        queue.len() > 0,
    ensures
        owed_in(queue) == queue[0].skipped + 1 + owed_in(queue.drop_first()),
    decreases queue.len(),
{
    if queue.len() == 1 {
        assert(queue.drop_last() =~= queue.drop_first());
    } else {
        lemma_owed_from_front(queue.drop_last());
        assert(queue.drop_last().drop_first() =~= queue.drop_first().drop_last());
        assert(queue.drop_first().last() == queue.last());
        assert(queue.drop_last()[0] == queue[0]);
    }
}

/// An offer never makes the queue longer than the capacity.
pub proof fn lemma_offer_keeps_bound<T>(m: OutboxModel<T>, item: T, policy: OverflowPolicy)
    requires
        m.wf(),
    ensures
        m.offered_under(item, policy).0.wf(),
        m.offered_under(item, policy).0.capacity == m.capacity,
        m.offered_under(item, policy).0.policy == m.policy,
        m.full() ==> m.offered_under(item, policy).0.full(),
{
}

/// Every message that is offered and not handed back is accounted for: it
/// is queued, or it is counted as dropped.
pub proof fn lemma_offer_is_accounted<T>(m: OutboxModel<T>, item: T, policy: OverflowPolicy)
    requires
        m.wf(),
        m.owed() < u64::MAX,
    ensures
        m.offered_under(item, policy).1 is Refused ==> m.offered_under(item, policy).0.owed()
            == m.owed(),
        !(m.offered_under(item, policy).1 is Refused) ==> m.offered_under(item, policy).0.owed()
            == m.owed() + 1,
{
    let fresh = Queued { skipped: m.pending, item };
    if !m.full() {
        assert(m.queue.push(fresh).drop_last() =~= m.queue);
    } else if policy == OverflowPolicy::DropOldest {
        let rest = m.queue.drop_first();
        lemma_owed_from_front(m.queue);
        assert(rest.push(fresh).drop_last() =~= rest);
    }
}

/// The consumer learns of every message: with each one that it takes comes
/// the number of those that were dropped before it.
pub proof fn lemma_take_is_accounted<T>(m: OutboxModel<T>)
    requires
        m.wf(),
        m.owed() <= u64::MAX,
    ensures
        match m.taken().1 {
            Some(delivery) => m.taken().0.owed() + delivery.skipped + 1 == m.owed(),
            None => m.taken().0 == m,
        },
{
    if m.queue.len() > 0 {
        lemma_owed_from_front(m.queue);
    }
}

impl<T> OutboxModel<T> {
    /// Whether nothing was dropped that the consumer has not been told of.
    pub open spec fn spotless(self) -> bool {
        &&& self.front_gap == 0
        &&& self.pending == 0
        &&& forall|i: int| 0 <= i < self.queue.len() ==> (#[trigger] self.queue[i]).skipped == 0
    }
}

/// Under `Block` nothing is ever dropped: an offer either appends the
/// message or hands it back and changes nothing, and the consumer takes the
/// messages in the order in which they were queued, none skipped.
pub proof fn lemma_block_loses_nothing<T>(m: OutboxModel<T>, item: T)
    requires
        m.wf(),
        m.spotless(),
        m.policy == OverflowPolicy::Block,
    ensures
        m.offered(item).0.spotless(),
        m.offered(item).1 is Accepted ==> m.offered(item).0.items() == m.items().push(item),
        !(m.offered(item).1 is Accepted) ==> m.offered(item).1 == Offer::Refused(item) && m.offered(
            item,
        ).0 == m,
        m.taken().0.spotless(),
        m.taken().1 matches Some(delivery) ==> delivery.skipped == 0 && delivery.item == m.items()[0]
            && m.taken().0.items() == m.items().drop_first(),
{
    if !m.full() {
        assert(m.offered(item).0.items() =~= m.items().push(item));
    }
    if m.queue.len() > 0 {
        assert(m.taken().0.items() =~= m.items().drop_first());
    }
}

/// Sustained overflow under `Block`: a full outbox stays exactly as it is,
/// however many messages are offered.
pub proof fn lemma_overflow_blocks<T>(m: OutboxModel<T>, burst: Seq<T>)
    requires
        m.wf(),
        m.full(),
        m.policy == OverflowPolicy::Block,
    ensures
        m.offered_all(burst) == m,
    decreases burst.len(),
{
    if burst.len() > 0 {
        lemma_overflow_blocks(m, burst.drop_last());
    }
}

/// Sustained overflow under `DropNewest`: a full outbox keeps its queue,
/// and counts every offered message as dropped.
pub proof fn lemma_overflow_drops_newest<T>(m: OutboxModel<T>, burst: Seq<T>)
    requires
        m.wf(),
        m.full(),
        m.policy == OverflowPolicy::DropNewest,
    ensures
        m.offered_all(burst) == (OutboxModel {
            pending: if m.pending + burst.len() <= u64::MAX {
                (m.pending + burst.len()) as u64
            } else {
                u64::MAX
            },
            ..m
        }),
    decreases burst.len(),
{
    if burst.len() > 0 {
        lemma_overflow_drops_newest(m, burst.drop_last());
    }
}

/// Sustained overflow under `DropOldest`: a full outbox stays full and holds
/// the newest messages, in the order in which they were offered.
pub proof fn lemma_overflow_drops_oldest<T>(m: OutboxModel<T>, burst: Seq<T>)
    requires
        m.wf(),
        m.full(),
        m.policy == OverflowPolicy::DropOldest,
    ensures
        m.offered_all(burst).wf(),
        m.offered_all(burst).full(),
        m.offered_all(burst).policy == m.policy,
        m.offered_all(burst).capacity == m.capacity,
        m.offered_all(burst).items() == (m.items() + burst).skip(burst.len() as int),
    decreases burst.len(),
{
    if burst.len() == 0 {
        assert(m.items() =~= (m.items() + burst).skip(0));
    } else {
        let front = burst.drop_last();
        lemma_overflow_drops_oldest(m, front);
        let mid = m.offered_all(front);
        let after = mid.offered(burst.last()).0;
        assert(after.items() =~= (m.items() + burst).skip(burst.len() as int)) by {
            assert(mid.items() == (m.items() + front).skip(front.len() as int));
            assert forall|i: int| 0 <= i < after.items().len() implies after.items()[i] == (m.items()
                + burst).skip(burst.len() as int)[i] by {
                if i < after.items().len() - 1 {
                    assert(after.items()[i] == mid.items()[i + 1]);
                    assert(mid.items()[i + 1] == (m.items() + front)[front.len() + i + 1]);
                }
            }
        }
    }
}

} // verus!
