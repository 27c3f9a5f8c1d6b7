use vstd::prelude::*;

verus! {

/// A dispatch queue as plain values.
pub struct QueueView<T> {
    pub items: Seq<T>,
    pub capacity: nat,
    pub dropped: nat,
}

/// What a non-blocking send does: append when there is room, otherwise drop
/// the item and count the drop (the count stops at `u64::MAX`).
pub open spec fn send_spec<T>(q: QueueView<T>, x: T) -> QueueView<T> {
    if q.items.len() < q.capacity {
        QueueView { items: q.items.push(x), ..q }
    } else {
        QueueView { dropped: if q.dropped < u64::MAX { q.dropped + 1 } else { q.dropped }, ..q }
    }
}

/// Non-blocking sends of each item in turn.
pub open spec fn send_all<T>(q: QueueView<T>, xs: Seq<T>) -> QueueView<T>
    decreases xs.len(),
{
    if xs.len() == 0 {
        q
    } else {
        send_spec(send_all(q, xs.drop_last()), xs.last())
    }
}

/// What a control message does: it is appended whatever the queue holds.
pub open spec fn send_control_spec<T>(q: QueueView<T>, x: T) -> QueueView<T> {
    QueueView { items: q.items.push(x), ..q }
}

pub open spec fn min_nat(a: nat, b: nat) -> nat {
    if a <= b {
        a
    } else {
        b
    }
}

/// Items sent without blocking into a queue with room for `r` more: the first
/// `r` of them are appended in order, and every later one is dropped and
/// counted.
pub proof fn lemma_send_all<T>(q: QueueView<T>, xs: Seq<T>)
    requires
        q.items.len() <= q.capacity,
        q.dropped + xs.len() <= u64::MAX,
    ensures
        ({
            let room = (q.capacity - q.items.len()) as nat;
            let kept = min_nat(room, xs.len());
            &&& send_all(q, xs).items == q.items + xs.subrange(0, kept as int)
            &&& send_all(q, xs).dropped == q.dropped + (xs.len() - kept)
            &&& send_all(q, xs).capacity == q.capacity
        }),
    decreases xs.len(),
{
    if xs.len() > 0 {
        let rest = xs.drop_last();
        lemma_send_all(q, rest);
        let room = (q.capacity - q.items.len()) as nat;
        let kept = min_nat(room, rest.len());
        assert(rest.subrange(0, kept as int) =~= xs.subrange(0, kept as int));
        if rest.len() < room {
            assert(xs.subrange(0, kept as int).push(xs.last()) =~= xs.subrange(0, xs.len() as int));
        }
    }
}

/// Under a capacity of `n`, sending `n + 1` items without draining keeps the
/// first `n` in the order they were sent and drops exactly one.
pub proof fn lemma_overflow_by_one<T>(n: nat, xs: Seq<T>)
    requires
        xs.len() == n + 1,
        n < u64::MAX,
    ensures
        send_all(QueueView { items: Seq::empty(), capacity: n, dropped: 0 }, xs).items == xs.subrange(
            0,
            n as int,
        ),
        send_all(QueueView { items: Seq::empty(), capacity: n, dropped: 0 }, xs).dropped == 1,
{
    let q = QueueView { items: Seq::<T>::empty(), capacity: n, dropped: 0 };
    lemma_send_all(q, xs);
    assert(q.items + xs.subrange(0, n as int) =~= xs.subrange(0, n as int));
}

/// A flush message sent after `k` events that all found room stands behind
/// all of them: a consumer that takes messages in order handles the `k`
/// events, after what was queued before them, before it handles the flush.
pub proof fn lemma_flush_after_events<T>(q: QueueView<T>, es: Seq<T>, flush: T)
    requires
        q.items.len() + es.len() <= q.capacity,
        q.dropped + es.len() <= u64::MAX,
    ensures
        send_control_spec(send_all(q, es), flush).items == q.items + es + seq![flush],
        send_control_spec(send_all(q, es), flush).dropped == q.dropped,
{
    lemma_send_all(q, es);
    assert(es.subrange(0, es.len() as int) =~= es);
    assert(q.items + es + seq![flush] =~= (q.items + es).push(flush));
}

/// Bounded FIFO queue between producers and the single consumer. Items sent
/// without blocking are dropped, and counted, when the queue is full.
pub struct DispatchQueue<T> {
    items: std::collections::VecDeque<T>,
    capacity: usize,
    dropped: u64,
}

impl<T> View for DispatchQueue<T> {
    type V = QueueView<T>;

    closed spec fn view(&self) -> QueueView<T> {
        QueueView { items: self.items@, capacity: self.capacity as nat, dropped: self.dropped as nat }
    }
}

impl<T> DispatchQueue<T> {
    pub fn new(capacity: usize) -> (r: DispatchQueue<T>)
        ensures
            r@.items == Seq::<T>::empty(),
            r@.capacity == capacity,
            r@.dropped == 0,
    {
        DispatchQueue { items: std::collections::VecDeque::new(), capacity, dropped: 0 }
    }

    /// Appends `item` when the queue has room; otherwise drops it, counts the
    /// drop and hands the item back.
    pub fn try_send(&mut self, item: T) -> (r: Result<(), T>)
        ensures
            final(self)@ == send_spec(old(self)@, item),
            r is Ok <==> old(self)@.items.len() < old(self)@.capacity,
            r matches Err(x) ==> x == item,
    {
        if self.items.len() < self.capacity {
            self.items.push_back(item);
            Ok(())
        } else {
            if self.dropped < u64::MAX {
                self.dropped = self.dropped + 1;
            }
            Err(item)
        }
    }

    /// Appends a control message, which is never dropped.
    pub fn send_control(&mut self, item: T)
        ensures
            final(self)@ == send_control_spec(old(self)@, item),
    {
        self.items.push_back(item);
    }

    /// Takes the oldest message, if any.
    pub fn recv(&mut self) -> (r: Option<T>)
        ensures
            old(self)@.items.len() == 0 ==> r is None && final(self)@ == old(self)@,
            old(self)@.items.len() > 0 ==> r == Some(old(self)@.items[0]) && final(self)@ == (
            QueueView { items: old(self)@.items.drop_first(), ..old(self)@ }),
    {
        self.items.pop_front()
    }

    pub fn len(&self) -> (r: usize)
        ensures
            r == self@.items.len(),
    {
        self.items.len()
    }

    pub fn is_full(&self) -> (r: bool)
        ensures
            r == (self@.items.len() >= self@.capacity),
    {
        self.items.len() >= self.capacity
    }

    pub fn capacity(&self) -> (r: usize)
        ensures
            r == self@.capacity,
    {
        self.capacity
    }

    /// Number of messages dropped because the queue was full.
    pub fn dropped(&self) -> (r: u64)
        ensures
            r == self@.dropped,
    {
        self.dropped
    }
}

} // verus!
