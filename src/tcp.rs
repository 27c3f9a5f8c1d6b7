use vstd::prelude::*;

verus! {

/// Extra attempts a write makes after its first one fails.
pub const NUM_SEND_RETRIES: u8 = 1;

/// Minimum time between two connection attempts, in microseconds.
pub const RECONNECT_INTERVAL_MICROS: u64 = 1_000_000;

/// Bound on one connection attempt to one address, in milliseconds.
pub const CONNECTION_TIMEOUT_MS: u64 = 5000;

/// Bound on one write to an established connection, in milliseconds.
pub const WRITE_TIMEOUT_MS: u64 = 2000;

/// Connection state of a network sink: whether a connection is established
/// and when the last connection attempt started (microseconds on a monotonic
/// clock).
pub struct LinkView {
    pub connected: bool,
    pub last_attempt: Option<u64>,
}

/// Progress of one write call: payload length, bytes sent by the current
/// attempt, and failed attempts so far.
pub struct CallView {
    pub len: nat,
    pub offset: nat,
    pub failures: nat,
}

/// What the I/O side is asked to do next.
#[derive(Clone, Copy, Debug, PartialEq, Eq, Structural)]
pub enum TcpAction {
    /// Try each resolved address of the endpoint, with the connect timeout,
    /// and set the write timeout on the connection.
    Connect,
    /// Write the payload from this byte offset, once.
    Send { offset: usize },
    /// The call is over; when nothing was delivered, a diagnostic is printed.
    Finish { delivered: bool },
}

/// What the I/O side reports back.
#[derive(Clone, Copy, Debug, PartialEq, Eq, Structural)]
pub enum TcpOutcome {
    Connected,
    ConnectFailed,
    Wrote { n: usize },
    WriteFailed { interrupted: bool },
}

/// A connection attempt may start: none was made yet, or the last one
/// started more than the throttle interval ago.
pub open spec fn may_connect(last: Option<u64>, now: u64) -> bool {
    match last {
        None => true,
        Some(t) => now > t && now - t > RECONNECT_INTERVAL_MICROS,
    }
}

pub open spec fn fail_call(c: CallView) -> CallView {
    CallView { offset: 0, failures: if c.failures < 2 { c.failures + 1 } else { 2 }, ..c }
}

/// The next action of a write call at time `now`, and the states it leaves.
pub open spec fn next_spec(l: LinkView, c: CallView, now: u64) -> (LinkView, CallView, TcpAction)
    decreases 2 - c.failures,
{
    if c.failures > NUM_SEND_RETRIES {
        (l, c, TcpAction::Finish { delivered: false })
    } else if c.offset >= c.len {
        (l, c, TcpAction::Finish { delivered: true })
    } else if l.connected {
        (l, c, TcpAction::Send { offset: c.offset as usize })
    } else if may_connect(l.last_attempt, now) {
        (LinkView { last_attempt: Some(now), ..l }, c, TcpAction::Connect)
    } else {
        next_spec(l, fail_call(c), now)
    }
}

/// The states after the I/O side reports an outcome.
pub open spec fn record_spec(l: LinkView, c: CallView, o: TcpOutcome) -> (LinkView, CallView) {
    match o {
        TcpOutcome::Connected => (LinkView { connected: true, ..l }, c),
        TcpOutcome::ConnectFailed => (l, fail_call(c)),
        TcpOutcome::Wrote { n } => if n == 0 {
            (l, fail_call(c))
        } else {
            (l, CallView { offset: if c.offset + n <= c.len { (c.offset + n) as nat } else { c.len }, ..c })
        },
        TcpOutcome::WriteFailed { interrupted } => (
            LinkView { connected: false, ..l },
            if interrupted {
                c
            } else {
                fail_call(c)
            },
        ),
    }
}

/// One write call in progress.
pub struct WriteCall {
    len: usize,
    offset: usize,
    failures: u8,
}

impl View for WriteCall {
    type V = CallView;

    closed spec fn view(&self) -> CallView {
        CallView { len: self.len as nat, offset: self.offset as nat, failures: self.failures as nat }
    }
}

impl WriteCall {
    pub open spec fn wf(&self) -> bool {
        self@.offset <= self@.len && self@.failures <= 2
    }

    /// Starts a write call for a payload of `len` bytes.
    pub fn new(len: usize) -> (r: WriteCall)
        ensures
            r@ == (CallView { len: len as nat, offset: 0, failures: 0 }),
            r.wf(),
    {
        WriteCall { len, offset: 0, failures: 0 }
    }

    fn fail(&mut self)
        requires
            old(self).wf(),
        ensures
            final(self)@ == fail_call(old(self)@),
            final(self).wf(),
    {
        self.offset = 0;
        if self.failures < 2 {
            self.failures = self.failures + 1;
        }
    }
}

/// Decision state of a reconnecting network sink. The connection itself is
/// held by the I/O side, which keeps it exactly while `is_connected` holds.
pub struct TcpStreamHandler {
    endpoint: String,
    connected: bool,
    last_connection_attempt: Option<u64>,
}

impl View for TcpStreamHandler {
    type V = LinkView;

    closed spec fn view(&self) -> LinkView {
        LinkView { connected: self.connected, last_attempt: self.last_connection_attempt }
    }
}

impl TcpStreamHandler {
    pub closed spec fn endpoint_view(&self) -> Seq<char> {
        self.endpoint@
    }

    /// A handler that has not connected nor tried to.
    pub fn new(endpoint: String) -> (r: TcpStreamHandler)
        ensures
            r@ == (LinkView { connected: false, last_attempt: None }),
            r.endpoint_view() == endpoint@,
    {
        TcpStreamHandler { endpoint, connected: false, last_connection_attempt: None }
    }

    pub fn endpoint(&self) -> (r: &str)
        ensures
            r@ == self.endpoint_view(),
    {
        self.endpoint.as_str()
    }

    pub fn is_connected(&self) -> (r: bool)
        ensures
            r == self@.connected,
    {
        self.connected
    }

    /// Whether a flush can be attempted; without a connection it is reported
    /// as a failure and nothing else happens.
    pub fn can_flush(&self) -> (r: bool)
        ensures
            r == self@.connected,
    {
        self.connected
    }

    fn may_connect(&self, now: u64) -> (r: bool)
        ensures
            r == may_connect(self@.last_attempt, now),
    {
        match self.last_connection_attempt {
            None => true,
            Some(t) => now > t && now - t > RECONNECT_INTERVAL_MICROS,
        }
    }

    /// Decides the next step of a write call at time `now`.
    pub fn next_action(&mut self, call: &mut WriteCall, now: u64) -> (r: TcpAction)
        requires
            old(call).wf(),
        ensures
            (final(self)@, final(call)@, r) == next_spec(old(self)@, old(call)@, now),
            final(call).wf(),
            final(self).endpoint_view() == old(self).endpoint_view(),
    {
        loop
            invariant
                call.wf(),
                next_spec(self@, call@, now) == next_spec(old(self)@, old(call)@, now),
                self.endpoint_view() == old(self).endpoint_view(),
            decreases 2 - call.failures,
        {
            if call.failures > NUM_SEND_RETRIES {
                return TcpAction::Finish { delivered: false };
            } else if call.offset >= call.len {
                return TcpAction::Finish { delivered: true };
            } else if self.connected {
                return TcpAction::Send { offset: call.offset };
            } else if self.may_connect(now) {
                self.last_connection_attempt = Some(now);
                return TcpAction::Connect;
            } else {
                call.fail();
            }
        }
    }

    /// Takes in what the I/O side reports after an action.
    pub fn record_outcome(&mut self, call: &mut WriteCall, outcome: TcpOutcome)
        requires
            old(call).wf(),
        ensures
            (final(self)@, final(call)@) == record_spec(old(self)@, old(call)@, outcome),
            final(call).wf(),
            final(self).endpoint_view() == old(self).endpoint_view(),
    {
        match outcome {
            TcpOutcome::Connected => {
                self.connected = true;
            },
            TcpOutcome::ConnectFailed => {
                call.fail();
            },
            TcpOutcome::Wrote { n } => {
                if n == 0 {
                    call.fail();
                } else if n <= call.len - call.offset {
                    call.offset = call.offset + n;
                } else {
                    call.offset = call.len;
                }
            },
            TcpOutcome::WriteFailed { interrupted } => {
                self.connected = false;
                if !interrupted {
                    call.fail();
                }
            },
        }
    }
}

/// Writing to an unreachable endpoint. A call at time `t` on a disconnected
/// sink makes a connection attempt exactly when the throttle allows one. When
/// it does and the attempt fails, the call retries once, within the same
/// interval, without connecting again, and ends undelivered; every later
/// call within the interval makes no attempt and ends undelivered; once the
/// interval has passed, the next call attempts to connect again.
pub proof fn lemma_unreachable_endpoint(l: LinkView, len: nat, t: u64, t2: u64, t3: u64)
    requires
        !l.connected,
        len > 0,
        t <= t2,
        t2 - t <= RECONNECT_INTERVAL_MICROS,
        t3 > t,
        t3 - t > RECONNECT_INTERVAL_MICROS,
    ensures
        ({
            let c0 = CallView { len, offset: 0, failures: 0 };
            let (l1, c1, a1) = next_spec(l, c0, t);
            &&& a1 == TcpAction::Connect <==> may_connect(l.last_attempt, t)
            &&& a1 == TcpAction::Connect ==> {
                let (l2, c2) = record_spec(l1, c1, TcpOutcome::ConnectFailed);
                let (l3, c3, a3) = next_spec(l2, c2, t2);
                &&& l2.last_attempt == Some(t)
                &&& c2.failures == 1
                &&& a3 == TcpAction::Finish { delivered: false }
                &&& l3 == l2
                &&& next_spec(l3, c0, t2).2 == TcpAction::Finish { delivered: false }
                &&& next_spec(l3, c0, t3).2 == TcpAction::Connect
            }
            &&& a1 != TcpAction::Connect ==> a1 == TcpAction::Finish { delivered: false } && l1
                == l
        }),
{
    let c0 = CallView { len, offset: 0, failures: 0 };
    let c1 = fail_call(c0);
    let c2 = fail_call(c1);
    assert(next_spec(l, c2, t) == (l, c2, TcpAction::Finish { delivered: false }));
    if may_connect(l.last_attempt, t) {
        let l2 = LinkView { last_attempt: Some(t), ..l };
        assert(!may_connect(l2.last_attempt, t2));
        assert(next_spec(l2, c2, t2) == (l2, c2, TcpAction::Finish { delivered: false }));
        assert(next_spec(l2, c1, t2) == (l2, c2, TcpAction::Finish { delivered: false }));
        assert(next_spec(l2, c0, t2) == next_spec(l2, c1, t2));
        assert(may_connect(l2.last_attempt, t3));
    } else {
        assert(next_spec(l, c1, t) == next_spec(l, c2, t));
    }
}

} // verus!
