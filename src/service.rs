use crate::event::{AsyncEvent, AsyncEventView};
use crate::filter::{decide, DirectiveView, Filter, StandardFilter};
use crate::metadata::{Metadata, MetadataView};
use crate::queue::{lemma_flush_after_events, send_all, send_control_spec, send_spec, DispatchQueue, QueueView};
use vstd::prelude::*;

verus! {

/// A message to the dispatch consumer: an event to deliver, or a flush
/// barrier carrying the handle on which the consumer acknowledges it.
pub enum LoggerServiceEvent<R> {
    LogEvent(AsyncEvent),
    Flush(R),
}

pub open spec fn filter_views(fs: Seq<StandardFilter>) -> Seq<Seq<DirectiveView>> {
    fs.map_values(|f: StandardFilter| f@)
}

/// Some filter of the list accepts the metadata.
pub open spec fn any_accepts(fs: Seq<Seq<DirectiveView>>, m: MetadataView) -> bool {
    exists|i: int| 0 <= i < fs.len() && decide(#[trigger] fs[i], m.module_name, m.level)
}

/// Indices, in increasing order, of the first `n` filters that accept the
/// metadata.
pub open spec fn accepting(fs: Seq<Seq<DirectiveView>>, m: MetadataView, n: nat) -> Seq<usize>
    decreases n,
{
    if n == 0 {
        Seq::empty()
    } else {
        let rest = accepting(fs, m, (n - 1) as nat);
        if decide(fs[n - 1], m.module_name, m.level) {
            rest.push((n - 1) as usize)
        } else {
            rest
        }
    }
}

/// The events that a consumer taking `msgs` in order hands to a sink with
/// filter `f`.
pub open spec fn delivered<R>(msgs: Seq<LoggerServiceEvent<R>>, f: Seq<DirectiveView>) -> Seq<
    AsyncEventView,
>
    decreases msgs.len(),
{
    if msgs.len() == 0 {
        Seq::empty()
    } else {
        let rest = delivered(msgs.drop_last(), f);
        match msgs.last() {
            LoggerServiceEvent::LogEvent(e) => if decide(f, e@.metadata.module_name, e@.metadata.level) {
                rest.push(e@)
            } else {
                rest
            },
            LoggerServiceEvent::Flush(_) => rest,
        }
    }
}

pub open spec fn log_messages<R>(es: Seq<AsyncEvent>) -> Seq<LoggerServiceEvent<R>> {
    es.map_values(|e: AsyncEvent| LoggerServiceEvent::<R>::LogEvent(e))
}

pub proof fn lemma_delivered_concat<R>(
    a: Seq<LoggerServiceEvent<R>>,
    b: Seq<LoggerServiceEvent<R>>,
    f: Seq<DirectiveView>,
)
    ensures
        delivered(a + b, f) == delivered(a, f) + delivered(b, f),
    decreases b.len(),
{
    if b.len() == 0 {
        assert(a + b =~= a);
        assert(delivered(a, f) + delivered(b, f) =~= delivered(a, f));
    } else {
        lemma_delivered_concat(a, b.drop_last(), f);
        assert((a + b).drop_last() =~= a + b.drop_last());
        assert((a + b).last() == b.last());
        match b.last() {
            LoggerServiceEvent::LogEvent(e) => {
                assert(delivered(a, f) + delivered(b.drop_last(), f).push(e@) =~= (delivered(a, f)
                    + delivered(b.drop_last(), f)).push(e@));
            },
            LoggerServiceEvent::Flush(_) => {},
        }
    }
}

/// Flush barrier: when `k` events are queued, all finding room, and then a
/// flush, the flush is the last message, and by the time a consumer taking
/// messages in order reaches it, every sink has been handed, after what was
/// queued before, each of the `k` events that its filter accepts, in order.
pub proof fn lemma_flush_observes_prior_events<R>(
    q: QueueView<LoggerServiceEvent<R>>,
    es: Seq<AsyncEvent>,
    reply: R,
    f: Seq<DirectiveView>,
)
    requires
        q.items.len() + es.len() <= q.capacity,
        q.dropped + es.len() <= u64::MAX,
    ensures
        ({
            let done = send_control_spec(send_all(q, log_messages::<R>(es)), LoggerServiceEvent::Flush(reply));
            &&& done.items.last() == LoggerServiceEvent::<R>::Flush(reply)
            &&& delivered(done.items.drop_last(), f) == delivered(q.items, f) + delivered(
                log_messages::<R>(es),
                f,
            )
        }),
{
    let ms = log_messages::<R>(es);
    lemma_flush_after_events(q, ms, LoggerServiceEvent::Flush(reply));
    let done = send_control_spec(send_all(q, ms), LoggerServiceEvent::Flush(reply));
    assert(done.items.drop_last() =~= q.items + ms);
    lemma_delivered_concat(q.items, ms, f);
}

/// A sink index is among the accepting ones exactly when that sink's filter
/// accepts the metadata; the indices increase.
pub proof fn lemma_accepting_members(fs: Seq<Seq<DirectiveView>>, m: MetadataView, n: nat, s: int)
    requires
        n <= fs.len(),
        n <= usize::MAX + 1,
    ensures
        accepting(fs, m, n).contains(s as usize) && 0 <= s <= usize::MAX <==> (0 <= s < n && decide(
            fs[s],
            m.module_name,
            m.level,
        )),
        forall|a: int, b: int|
            0 <= a < b < accepting(fs, m, n).len() ==> accepting(fs, m, n)[a] < accepting(
                fs,
                m,
                n,
            )[b],
        forall|a: int| 0 <= a < accepting(fs, m, n).len() ==> accepting(fs, m, n)[a] < n,
    decreases n,
{
    if n > 0 {
        let k = (n - 1) as nat;
        lemma_accepting_members(fs, m, k, s);
        let rest = accepting(fs, m, k);
        if decide(fs[k as int], m.module_name, m.level) {
            let r = rest.push(k as usize);
            assert(r[r.len() - 1] == k as usize);
            if r.contains(s as usize) && 0 <= s <= usize::MAX {
                let a = choose|a: int| 0 <= a < r.len() && r[a] == s as usize;
                if a < rest.len() {
                    assert(rest[a] == r[a]);
                }
            }
            if 0 <= s < n && decide(fs[s], m.module_name, m.level) && s < k {
                let a = choose|a: int| 0 <= a < rest.len() && rest[a] == s as usize;
                assert(r[a] == rest[a]);
            }
            if s == k {
                assert(r[r.len() - 1] == s as usize);
            }
        }
    }
}

/// What the dispatch thread does with one message.
pub enum ServiceAction<R> {
    /// Format and write the event on each listed sink, in this order.
    Deliver { event: AsyncEvent, sinks: Vec<usize> },
    /// Flush every sink in registration order, then acknowledge on `reply`.
    FlushAll { reply: R },
}

/// What a producer's submission came to.
#[derive(Clone, Copy, Debug, PartialEq, Eq, Structural)]
pub enum RecordOutcome {
    /// No filter accepts the event; nothing was queued.
    Disabled,
    /// The event was queued.
    Queued,
    /// The queue was full; the event was dropped and counted.
    Dropped,
}

/// Producer side of the asynchronous configuration: the shared pre-filter
/// and the submission of snapshots to the bounded queue.
pub struct LoggerServiceDispatcher {
    filters: Vec<StandardFilter>,
}

impl View for LoggerServiceDispatcher {
    type V = Seq<Seq<DirectiveView>>;

    closed spec fn view(&self) -> Seq<Seq<DirectiveView>> {
        filter_views(self.filters@)
    }
}

fn any_enabled(filters: &Vec<StandardFilter>, metadata: &Metadata) -> (r: bool)
    ensures
        r == any_accepts(filter_views(filters@), metadata@),
{
    let ghost fs = filter_views(filters@);
    let mut i: usize = 0;
    while i < filters.len()
        invariant
            i <= filters.len(),
            fs == filter_views(filters@),
            forall|j: int| 0 <= j < i ==> !decide(#[trigger] fs[j], metadata@.module_name, metadata@.level),
        decreases filters.len() - i,
    {
        assert(fs[i as int] == filters@[i as int]@);
        if filters[i].enabled(metadata) {
            return true;
        }
        i = i + 1;
    }
    false
}

impl LoggerServiceDispatcher {
    pub fn new(filters: Vec<StandardFilter>) -> (r: LoggerServiceDispatcher)
        ensures
            r@ == filter_views(filters@),
    {
        LoggerServiceDispatcher { filters }
    }

    /// Whether any of the pre-filters accepts the metadata.
    pub fn enabled(&self, metadata: &Metadata) -> (r: bool)
        ensures
            r == any_accepts(self@, metadata@),
    {
        any_enabled(&self.filters, metadata)
    }

    /// Submits a snapshot without blocking: nothing happens when no
    /// pre-filter accepts it; otherwise it is queued, or dropped and counted
    /// when the queue is full.
    pub fn record<R>(&self, queue: &mut DispatchQueue<LoggerServiceEvent<R>>, event: AsyncEvent) -> (r:
        RecordOutcome)
        ensures
            !any_accepts(self@, event@.metadata) ==> r == RecordOutcome::Disabled && *final(queue)
                == *old(queue),
            any_accepts(self@, event@.metadata) ==> final(queue)@ == send_spec(
                old(queue)@,
                LoggerServiceEvent::LogEvent(event),
            ),
            any_accepts(self@, event@.metadata) ==> (r == RecordOutcome::Queued <==> old(
                queue,
            )@.items.len() < old(queue)@.capacity),
            any_accepts(self@, event@.metadata) ==> (r == RecordOutcome::Dropped <==> old(
                queue,
            )@.items.len() >= old(queue)@.capacity),
    {
        if !self.enabled(event.metadata()) {
            return RecordOutcome::Disabled;
        }
        match queue.try_send(LoggerServiceEvent::LogEvent(event)) {
            Ok(()) => RecordOutcome::Queued,
            Err(_) => RecordOutcome::Dropped,
        }
    }

    /// Queues a flush barrier behind every message already queued.
    pub fn flush<R>(&self, queue: &mut DispatchQueue<LoggerServiceEvent<R>>, reply: R)
        ensures
            final(queue)@ == send_control_spec(old(queue)@, LoggerServiceEvent::Flush(reply)),
    {
        queue.send_control(LoggerServiceEvent::Flush(reply));
    }
}

/// Consumer side: one filter per sink, in registration order.
pub struct DefaultLoggerService {
    filters: Vec<StandardFilter>,
}

impl View for DefaultLoggerService {
    type V = Seq<Seq<DirectiveView>>;

    closed spec fn view(&self) -> Seq<Seq<DirectiveView>> {
        filter_views(self.filters@)
    }
}

impl DefaultLoggerService {
    pub fn new(filters: Vec<StandardFilter>) -> (r: DefaultLoggerService)
        ensures
            r@ == filter_views(filters@),
    {
        DefaultLoggerService { filters }
    }

    /// Number of sinks.
    pub fn sink_count(&self) -> (r: usize)
        ensures
            r == self@.len(),
    {
        self.filters.len()
    }

    /// The action for the next message taken from the queue.
    pub fn handle<R>(&self, message: LoggerServiceEvent<R>) -> (r: ServiceAction<R>)
        ensures
            message matches LoggerServiceEvent::LogEvent(e) ==> (r matches ServiceAction::Deliver {
                event,
                sinks,
            } && event == e && sinks@ == accepting(self@, e@.metadata, self@.len())),
            message matches LoggerServiceEvent::Flush(x) ==> r == (ServiceAction::FlushAll {
                reply: x,
            }),
    {
        match message {
            LoggerServiceEvent::LogEvent(event) => {
                let sinks = self.route(event.metadata());
                ServiceAction::Deliver { event, sinks }
            },
            LoggerServiceEvent::Flush(reply) => ServiceAction::FlushAll { reply },
        }
    }

    /// The sinks, in registration order, whose own filter accepts an event
    /// with this metadata.
    pub fn route(&self, metadata: &Metadata) -> (r: Vec<usize>)
        ensures
            r@ == accepting(self@, metadata@, self@.len()),
    {
        let ghost fs = self@;
        let mut out: Vec<usize> = Vec::new();
        let mut i: usize = 0;
        while i < self.filters.len()
            invariant
                i <= self.filters.len(),
                fs == self@,
                fs.len() == self.filters.len(),
                out@ == accepting(fs, metadata@, i as nat),
            decreases self.filters.len() - i,
        {
            assert(fs[i as int] == self.filters@[i as int]@);
            if self.filters[i].enabled(metadata) {
                out.push(i);
            }
            i = i + 1;
        }
        out
    }
}

} // verus!
