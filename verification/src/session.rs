//! The session of one script run: the bridges that feed it from the pollers
//! it subscribed to, and the queue it reads from.
//!
//! A bridge relays the results of one poller into the session's queue. The
//! queue is bounded; a bridge that finds it full leaves the result with the
//! poller, whose channel drops the oldest ones if the session stays behind.

use crate::fanout::{receive, Cursor, Received, ReceivedView, CHANNEL_CAPACITY};
use crate::fetch_aggregator::{registered, FetchAggregator};
use crate::fetcher::FetcherView;
use crate::request::{build_outcome, build_request, buildable, url_parts};
use crate::response::{payload_views, ResponsePayload, ResponseView};
use crate::target::{Fingerprint, RequestPayload, TargetError};
use std::collections::VecDeque;
use vstd::prelude::*;

verus! {

/// A bridge as plain values.
pub ghost struct BridgeView {
    /// The number the bridge was issued under.
    pub id: nat,
    /// The poller it reads from.
    pub fetcher: nat,
    /// Its place in that poller's channel.
    pub position: nat,
}

/// A session as plain values.
pub ghost struct SessionView {
    /// The bridges of the current script attempt, in the order of subscription.
    pub bridges: Seq<BridgeView>,
    /// The results that were forwarded and not read yet, oldest first.
    pub queue: Seq<ResponseView>,
    /// How many bridges were ever issued: the number of the next one.
    pub issued: nat,
    /// The shutdown signal was seen: the sentinel stands at the queue's end.
    pub shutdown: bool,
    /// The sentinel was handed out.
    pub terminated: bool,
}

/// What a bridge did with its turn.
#[derive(Clone, Copy, Debug, PartialEq, Eq, Structural)]
pub enum Forwarded {
    /// The bridge is not among the session's bridges: it must stop.
    Cancelled,
    /// The session has seen the shutdown signal: nothing follows the sentinel.
    Closed,
    /// The queue is full: the result stays with the poller.
    Full,
    /// The poller has published nothing new.
    Empty,
    /// The bridge fell behind its poller by this many results, which are lost.
    Lagged(u64),
    /// One result went into the queue.
    Delivered,
}

/// What reading the session gave, as plain values.
pub ghost enum NextView {
    /// A forwarded result, or the sentinel where nothing stands for it.
    Ready(Option<ResponseView>),
    /// Nothing to hand out yet: the caller waits.
    Pending,
}

/// What reading the session gave.
#[derive(Debug)]
pub enum Next {
    /// A forwarded result, or the termination sentinel (`None`).
    Ready(Option<ResponsePayload>),
    /// Nothing to hand out: the caller waits for a bridge or for shutdown.
    Pending,
}

impl View for Next {
    type V = NextView;

    open spec fn view(&self) -> NextView {
        match self {
            Next::Ready(Some(p)) => NextView::Ready(Some(p@)),
            Next::Ready(None) => NextView::Ready(None),
            Next::Pending => NextView::Pending,
        }
    }
}

/// The place of the first bridge with this number, if there is one.
pub open spec fn slot_of(bridges: Seq<BridgeView>, id: nat) -> Option<int>
    decreases bridges.len(),
{
    if bridges.len() == 0 {
        None
    } else {
        match slot_of(bridges.drop_last(), id) {
            Some(k) => Some(k),
            None => if bridges.last().id == id {
                Some(bridges.len() - 1)
            } else {
                None
            },
        }
    }
}

/// `slot_of` finds the first bridge with the number, and finds none only
/// where there is none.
pub proof fn lemma_slot_of(bridges: Seq<BridgeView>, id: nat)
    ensures
        match slot_of(bridges, id) {
            Some(k) => {
                &&& 0 <= k < bridges.len()
                &&& bridges[k].id == id
                &&& forall|j: int| 0 <= j < k ==> bridges[j].id != id
            },
            None => forall|j: int| 0 <= j < bridges.len() ==> bridges[j].id != id,
        },
    decreases bridges.len(),
{
    if bridges.len() > 0 {
        lemma_slot_of(bridges.drop_last(), id);
        assert forall|j: int| 0 <= j < bridges.len() - 1 implies bridges[j] == bridges.drop_last()[j] by {}
    }
}

impl SessionView {
    /// A session that has not subscribed to anything.
    pub open spec fn fresh() -> SessionView {
        SessionView {
            bridges: Seq::empty(),
            queue: Seq::empty(),
            issued: 0,
            shutdown: false,
            terminated: false,
        }
    }

    /// Every bridge was issued under a number of its own, below the next one.
    pub open spec fn wf(self) -> bool {
        &&& self.queue.len() <= CHANNEL_CAPACITY
        &&& forall|i: int| 0 <= i < self.bridges.len() ==> (#[trigger] self.bridges[i]).id < self.issued
        &&& forall|i: int, j: int|
            0 <= i < j < self.bridges.len() ==> (#[trigger] self.bridges[i]).id != (
            #[trigger] self.bridges[j]).id
    }

    /// The session after a bridge to `fetcher` was attached at `position`.
    pub open spec fn subscribed(self, fetcher: nat, position: nat) -> SessionView {
        SessionView {
            bridges: self.bridges.push(BridgeView { id: self.issued, fetcher, position }),
            issued: self.issued + 1,
            ..self
        }
    }

    /// The session after all its bridges were cancelled. The pollers and
    /// the queue are left as they are.
    pub open spec fn invalidated(self) -> SessionView {
        SessionView { bridges: Seq::empty(), ..self }
    }

    /// The session after the shutdown signal was seen.
    pub open spec fn shut_down(self) -> SessionView {
        SessionView { shutdown: true, ..self }
    }

    /// What the bridge of number `bridge` does with its turn, and the
    /// session after it; `logs` holds what each poller has published.
    pub open spec fn forwarded(self, logs: Seq<Seq<ResponseView>>, bridge: nat) -> (Forwarded, SessionView) {
        match slot_of(self.bridges, bridge) {
            None => (Forwarded::Cancelled, self),
            Some(k) => {
                let b = self.bridges[k];
                if b.fetcher >= logs.len() {
                    (Forwarded::Cancelled, self)
                } else if self.shutdown {
                    (Forwarded::Closed, self)
                } else if self.queue.len() >= CHANNEL_CAPACITY {
                    (Forwarded::Full, self)
                } else {
                    let (read, position) = receive(logs[b.fetcher as int], b.position);
                    let moved = self.bridges.update(k, BridgeView { position, ..b });
                    match read {
                        ReceivedView::Empty => (Forwarded::Empty, self),
                        ReceivedView::Lagged(n) => (
                            Forwarded::Lagged(n as u64),
                            SessionView { bridges: moved, ..self },
                        ),
                        ReceivedView::Item(item) => (
                            Forwarded::Delivered,
                            SessionView { bridges: moved, queue: self.queue.push(item), ..self },
                        ),
                    }
                }
            },
        }
    }

    /// What reading the session gives, and the session after it. Results
    /// come first, in the order they were forwarded; the sentinel comes
    /// once, after the shutdown signal; after the sentinel nothing comes.
    pub open spec fn polled(self) -> (NextView, SessionView) {
        if self.terminated {
            (NextView::Pending, self)
        } else if self.queue.len() > 0 {
            (
                NextView::Ready(Some(self.queue[0])),
                SessionView { queue: self.queue.subrange(1, self.queue.len() as int), ..self },
            )
        } else if self.shutdown {
            (NextView::Ready(None), SessionView { terminated: true, ..self })
        } else {
            (NextView::Pending, self)
        }
    }
}

/// The session `after` is the session `before` with one more bridge, which
/// is attached to the poller for `key` at the end of what it has published.
pub open spec fn attached(
    before: SessionView,
    pollers: Seq<FetcherView>,
    key: Fingerprint,
    after: SessionView,
) -> bool {
    exists|handle: int|
        {
            &&& 0 <= handle < pollers.len()
            &&& (#[trigger] pollers[handle]).target.fingerprint() == key
            &&& after == before.subscribed(handle as nat, pollers[handle].published.len())
        }
}

/// What each poller of a registry has published.
pub open spec fn logs_of(pollers: Seq<FetcherView>) -> Seq<Seq<ResponseView>> {
    pollers.map_values(|f: FetcherView| f.published)
}

/// One bridge: the subscription of a session to a poller.
#[derive(Debug)]
pub struct Bridge {
    id: u64,
    fetcher: usize,
    cursor: Cursor,
}

impl View for Bridge {
    type V = BridgeView;

    closed spec fn view(&self) -> BridgeView {
        BridgeView { id: self.id as nat, fetcher: self.fetcher as nat, position: self.cursor.position() }
    }
}

/// The handle of one script run on the registry.
pub struct Session {
    active: Vec<Bridge>,
    queue: VecDeque<ResponsePayload>,
    issued: u64,
    shutdown: bool,
    terminated: bool,
}

impl View for Session {
    type V = SessionView;

    closed spec fn view(&self) -> SessionView {
        SessionView {
            bridges: self.active@.map_values(|b: Bridge| b@),
            queue: payload_views(self.queue@),
            issued: self.issued as nat,
            shutdown: self.shutdown,
            terminated: self.terminated,
        }
    }
}

impl Session {
    /// The session's bridges are numbered apart and its queue is within bounds.
    pub open spec fn wf(&self) -> bool {
        self@.wf()
    }

    /// A session that has not subscribed to anything.
    pub fn new() -> (session: Session)
        ensures
            session.wf(),
            session@ == SessionView::fresh(),
    {
        let session = Session {
            active: Vec::new(),
            queue: VecDeque::new(),
            issued: 0,
            shutdown: false,
            terminated: false,
        };
        assert(session@.bridges =~= Seq::empty());
        assert(session@.queue =~= Seq::empty());
        session
    }

    /// How many bridges were ever issued.
    pub fn issued(&self) -> (count: u64)
        ensures
            count == self@.issued,
    {
        self.issued
    }

    /// The number of bridges of the current attempt.
    pub fn active_len(&self) -> (count: usize)
        ensures
            count == self@.bridges.len(),
    {
        self.active.len()
    }

    /// The number of results waiting to be read.
    pub fn queued(&self) -> (count: usize)
        ensures
            count == self@.queue.len(),
    {
        self.queue.len()
    }

    /// Subscribes the session to a target: finds or makes its poller in the
    /// registry, attaches a bridge to it and records the bridge. The number
    /// of the bridge is returned. The subscription fails only where no
    /// request can be built from the target; a target that asks for a
    /// signature is built, and judged, on each tick.
    pub fn subscribe(&mut self, registry: &mut FetchAggregator, payload: RequestPayload, period_ms: u64) -> (bridge:
        Result<u64, TargetError>)
        requires
            old(self).wf(),
            old(registry).wf(),
            old(self)@.issued < u64::MAX,
        ensures
            final(self).wf(),
            final(registry).wf(),
            final(registry).addresses() == old(registry).addresses(),
            bridge is Ok <==> payload@.sign is Some || buildable(payload@, url_parts(payload@.url)),
            match bridge {
                Err(e) => {
                    &&& build_outcome(payload@, url_parts(payload@.url), Err(e))
                    &&& final(self)@ == old(self)@
                    &&& final(registry).pollers() == old(registry).pollers()
                },
                Ok(id) => {
                    &&& id == old(self)@.issued
                    &&& final(registry).fingerprints() == registered(
                        old(registry).fingerprints(),
                        payload.fingerprint(),
                    )
                    &&& old(registry).fingerprints().contains(payload.fingerprint()) ==> {
                        final(registry).pollers() == old(registry).pollers()
                    }
                    &&& attached(old(self)@, final(registry).pollers(), payload.fingerprint(), final(self)@)
                },
            },
    {
        let unsigned = match &payload.sign {
            Some(_) => false,
            None => true,
        };
        if unsigned {
            match build_request(&payload) {
                Err(e) => {
                    return Err(e);
                },
                Ok(_) => {},
            }
        }
        let ghost before = self@;
        let handle = registry.subscribe(payload, period_ms);
        let cursor = registry.attach(handle);
        let id = self.issued;
        self.active.push(Bridge { id, fetcher: handle, cursor });
        self.issued = id + 1;
        proof {
            let made = BridgeView {
                id: id as nat,
                fetcher: handle as nat,
                position: registry.pollers()[handle as int].published.len(),
            };
            assert(self@.bridges =~= before.bridges.push(made));
            assert(self@ == before.subscribed(handle as nat, made.position));
            assert(registry.fingerprints()[handle as int] == registry.pollers()[handle as int].target.fingerprint());
        }
        Ok(id)
    }

    fn find_bridge(&self, bridge: u64) -> (slot: Option<usize>)
        ensures
            match slot {
                Some(k) => slot_of(self@.bridges, bridge as nat) == Some(k as int) && k
                    < self.active@.len(),
                None => slot_of(self@.bridges, bridge as nat) is None,
            },
    {
        let mut i: usize = 0;
        proof {
            lemma_slot_of(self@.bridges, bridge as nat);
        }
        while i < self.active.len()
            invariant
                i <= self.active.len(),
                forall|j: int| 0 <= j < i ==> self@.bridges[j].id != bridge as nat,
                match slot_of(self@.bridges, bridge as nat) {
                    Some(k) => {
                        &&& 0 <= k < self@.bridges.len()
                        &&& self@.bridges[k].id == bridge as nat
                        &&& forall|j: int| 0 <= j < k ==> self@.bridges[j].id != bridge as nat
                    },
                    None => forall|j: int|
                        0 <= j < self@.bridges.len() ==> self@.bridges[j].id != bridge as nat,
                },
            decreases self.active.len() - i,
        {
            assert(self@.bridges[i as int] == self.active@[i as int]@);
            if self.active[i].id == bridge {
                return Some(i);
            }
            i += 1;
        }
        None
    }

    /// Gives the bridge of number `bridge` its turn: it relays at most one
    /// result from its poller into the queue, without waiting.
    pub fn forward(&mut self, registry: &FetchAggregator, bridge: u64) -> (done: Forwarded)
        requires
            old(self).wf(),
            registry.wf(),
        ensures
            final(self).wf(),
            (done, final(self)@) == old(self)@.forwarded(logs_of(registry.pollers()), bridge as nat),
    {
        let ghost before = self@;
        let ghost logs = logs_of(registry.pollers());
        let slot = match self.find_bridge(bridge) {
            Some(k) => k,
            None => {
                return Forwarded::Cancelled;
            },
        };
        assert(before.bridges[slot as int] == self.active@[slot as int]@);
        let fetcher: usize = self.active[slot].fetcher;
        if fetcher >= registry.len() {
            return Forwarded::Cancelled;
        }
        if self.shutdown {
            return Forwarded::Closed;
        }
        if self.queue.len() >= CHANNEL_CAPACITY {
            return Forwarded::Full;
        }
        assert(logs[fetcher as int] == registry.pollers()[fetcher as int].published);
        let mut cursor = self.active[slot].cursor;
        let got = registry.next(fetcher, &mut cursor);
        let id = self.active[slot].id;
        match got {
            Received::Empty => Forwarded::Empty,
            Received::Lagged(n) => {
                self.active[slot] = Bridge { id, fetcher, cursor };
                proof {
                    let b = before.bridges[slot as int];
                    assert(self@.bridges =~= before.bridges.update(
                        slot as int,
                        BridgeView { position: cursor.position(), ..b },
                    ));
                }
                Forwarded::Lagged(n)
            },
            Received::Item(item) => {
                let ghost queue = payload_views(self.queue@);
                self.active[slot] = Bridge { id, fetcher, cursor };
                self.queue.push_back(item);
                proof {
                    let b = before.bridges[slot as int];
                    assert(self@.bridges =~= before.bridges.update(
                        slot as int,
                        BridgeView { position: cursor.position(), ..b },
                    ));
                    assert(self@.queue =~= queue.push(item@));
                }
                Forwarded::Delivered
            },
        }
    }

    /// Cancels every bridge of the session and forgets them. The pollers go
    /// on for the sessions that still read them; what is already in the
    /// queue stays there. To be called before a script restarts.
    pub fn invalidate_all(&mut self)
        requires
            old(self).wf(),
        ensures
            final(self).wf(),
            final(self)@ == old(self)@.invalidated(),
    {
        self.active.clear();
        assert(self@.bridges =~= Seq::empty());
    }

    /// Tells the session that the process is shutting down. The sentinel
    /// comes after the results that are already in the queue.
    pub fn shutdown(&mut self)
        requires
            old(self).wf(),
        ensures
            final(self).wf(),
            final(self)@ == old(self)@.shut_down(),
    {
        self.shutdown = true;
        assert(self@.bridges == old(self)@.bridges);
    }

    /// Reads the session without waiting: the oldest forwarded result, or
    /// the sentinel, or word that the caller has to wait.
    pub fn next(&mut self) -> (got: Next)
        requires
            old(self).wf(),
        ensures
            final(self).wf(),
            (got@, final(self)@) == old(self)@.polled(),
    {
        if self.terminated {
            return Next::Pending;
        }
        let ghost queue = payload_views(self.queue@);
        let ghost bridges = self@.bridges;
        match self.queue.pop_front() {
            Some(item) => {
                assert(queue[0] == item@);
                assert(payload_views(self.queue@) =~= queue.subrange(1, queue.len() as int));
                assert(self@.bridges == bridges);
                Next::Ready(Some(item))
            },
            None => {
                assert(payload_views(self.queue@) =~= queue);
                if self.shutdown {
                    self.terminated = true;
                    assert(self@.bridges == bridges);
                    Next::Ready(None)
                } else {
                    Next::Pending
                }
            },
        }
    }
}

/// One step in the life of a session.
pub ghost enum SessionOp {
    /// A bridge to the poller `fetcher` is attached at `position`.
    Subscribe { fetcher: nat, position: nat },
    /// The bridge of number `bridge` has its turn; `logs` holds what each
    /// poller has published by then.
    Forward { bridge: nat, logs: Seq<Seq<ResponseView>> },
    /// All bridges are cancelled.
    Invalidate,
    /// The shutdown signal is seen.
    Shutdown,
    /// The script reads the session.
    Next,
}

/// What a step let out.
pub ghost enum SessionOut {
    Nothing,
    Bridge(Forwarded),
    Read(NextView),
}

/// The effect of one step: what it lets out, and the session after it.
pub open spec fn session_step(s: SessionView, op: SessionOp) -> (SessionOut, SessionView) {
    match op {
        SessionOp::Subscribe { fetcher, position } => (SessionOut::Nothing, s.subscribed(fetcher, position)),
        SessionOp::Forward { bridge, logs } => (
            SessionOut::Bridge(s.forwarded(logs, bridge).0),
            s.forwarded(logs, bridge).1,
        ),
        SessionOp::Invalidate => (SessionOut::Nothing, s.invalidated()),
        SessionOp::Shutdown => (SessionOut::Nothing, s.shut_down()),
        SessionOp::Next => (SessionOut::Read(s.polled().0), s.polled().1),
    }
}

/// The session after a run of steps.
pub open spec fn session_run(s: SessionView, ops: Seq<SessionOp>) -> SessionView
    decreases ops.len(),
{
    if ops.len() == 0 {
        s
    } else {
        session_step(session_run(s, ops.drop_last()), ops.last()).1
    }
}

/// What step `k` of a run lets out.
pub open spec fn session_output(s: SessionView, ops: Seq<SessionOp>, k: int) -> SessionOut {
    session_step(session_run(s, ops.subrange(0, k)), ops[k]).0
}

/// The sentinel, as a step lets it out.
pub open spec fn sentinel() -> SessionOut {
    SessionOut::Read(NextView::Ready(None))
}

/// A run never takes back the shutdown signal or the handing out of the
/// sentinel; without a shutdown step it sees no shutdown; and it keeps the
/// numbering of the bridges in order.
pub proof fn lemma_session_run(s: SessionView, ops: Seq<SessionOp>)
    ensures
        s.shutdown ==> session_run(s, ops).shutdown,
        s.terminated ==> session_run(s, ops).terminated,
        !s.shutdown && (forall|i: int| 0 <= i < ops.len() ==> !(#[trigger] ops[i] is Shutdown))
            ==> !session_run(s, ops).shutdown,
        s.issued <= session_run(s, ops).issued,
        s.wf() ==> session_run(s, ops).wf(),
    decreases ops.len(),
{
    if ops.len() > 0 {
        let front = ops.drop_last();
        lemma_session_run(s, front);
        let before = session_run(s, front);
        assert forall|i: int| 0 <= i < front.len() implies front[i] == ops[i] by {}
        match ops.last() {
            SessionOp::Forward { bridge, logs } => {
                lemma_slot_of(before.bridges, bridge);
            },
            _ => {},
        }
        if s.wf() {
            lemma_step_keeps_wf(before, ops.last());
        }
    }
}

/// A step keeps the numbering of the bridges in order, and the queue
/// within its bound.
pub proof fn lemma_step_keeps_wf(s: SessionView, op: SessionOp)
    requires
        s.wf(),
    ensures
        session_step(s, op).1.wf(),
        s.issued <= session_step(s, op).1.issued,
{
    let after = session_step(s, op).1;
    match op {
        SessionOp::Forward { bridge, logs } => {
            lemma_slot_of(s.bridges, bridge);
        },
        _ => {},
    }
    assert forall|i: int| 0 <= i < after.bridges.len() implies (#[trigger] after.bridges[i]).id
        < after.issued by {
        if i < s.bridges.len() {
            assert(s.bridges[i].id < s.issued);
        }
    }
    assert forall|i: int, j: int| 0 <= i < j < after.bridges.len() implies (
    #[trigger] after.bridges[i]).id != (#[trigger] after.bridges[j]).id by {
        if j < s.bridges.len() {
            assert(s.bridges[i].id != s.bridges[j].id);
        } else {
            assert(s.bridges[i].id < s.issued);
        }
    }
}

/// A run in two parts is the second part run on what the first part left.
pub proof fn lemma_session_run_split(s: SessionView, ops: Seq<SessionOp>, k: int)
    requires
        0 <= k <= ops.len(),
    ensures
        session_run(s, ops) == session_run(
            session_run(s, ops.subrange(0, k)),
            ops.subrange(k, ops.len() as int),
        ),
    decreases ops.len() - k,
{
    let head = ops.subrange(0, k);
    let tail = ops.subrange(k, ops.len() as int);
    if k == ops.len() {
        assert(head =~= ops);
    } else {
        let front = ops.drop_last();
        lemma_session_run_split(s, front, k);
        assert(front.subrange(0, k) =~= head);
        assert(front.subrange(k, front.len() as int) =~= tail.drop_last());
        assert(tail.last() == ops.last());
    }
}

/// The sentinel is never handed out before the shutdown signal: in a run
/// that starts without it, no read before the first shutdown step gives it.
pub proof fn lemma_no_sentinel_before_shutdown(s: SessionView, ops: Seq<SessionOp>, k: int)
    requires
        !s.shutdown,
        0 <= k < ops.len(),
        forall|i: int| 0 <= i < k ==> !(#[trigger] ops[i] is Shutdown),
    ensures
        session_output(s, ops, k) != sentinel(),
{
    let head = ops.subrange(0, k);
    assert forall|i: int| 0 <= i < head.len() implies !(#[trigger] head[i] is Shutdown) by {
        assert(head[i] == ops[i]);
    }
    lemma_session_run(s, head);
}

/// The sentinel is handed out at most once: after the read that gave it,
/// no read of the same run gives it again.
pub proof fn lemma_sentinel_at_most_once(s: SessionView, ops: Seq<SessionOp>, i: int, j: int)
    requires
        0 <= i < j < ops.len(),
        session_output(s, ops, i) == sentinel(),
    ensures
        session_output(s, ops, j) != sentinel(),
        ops[j] is Next ==> session_output(s, ops, j) == SessionOut::Read(NextView::Pending),
{
    let upto_j = ops.subrange(0, j);
    let upto_i = ops.subrange(0, i);
    let after_i = session_step(session_run(s, upto_i), ops[i]).1;
    assert(after_i.terminated);
    lemma_session_run_split(s, upto_j, i + 1);
    let first = upto_j.subrange(0, i + 1);
    assert(first.drop_last() =~= upto_i);
    assert(first.last() == ops[i]);
    assert(session_run(s, first) == after_i);
    lemma_session_run(after_i, upto_j.subrange(i + 1, j));
}

/// The session after `n` reads.
pub open spec fn polled_times(s: SessionView, n: nat) -> SessionView
    decreases n,
{
    if n == 0 {
        s
    } else {
        polled_times(s, (n - 1) as nat).polled().1
    }
}

/// After the shutdown signal the sentinel is owed: the reads hand out what
/// is in the queue, in order, and the read after the last result gives the
/// sentinel.
pub proof fn lemma_sentinel_follows_shutdown(s: SessionView, n: nat)
    requires
        s.shutdown,
        !s.terminated,
        n <= s.queue.len(),
    ensures
        polled_times(s, n) == (SessionView { queue: s.queue.subrange(n as int, s.queue.len() as int), ..s }),
        n < s.queue.len() ==> polled_times(s, n).polled().0 == NextView::Ready(Some(s.queue[n as int])),
        n == s.queue.len() ==> polled_times(s, n).polled().0 == NextView::Ready(None),
    decreases n,
{
    if n == 0 {
        assert(s.queue.subrange(0, s.queue.len() as int) =~= s.queue);
    } else {
        lemma_sentinel_follows_shutdown(s, (n - 1) as nat);
        let before = polled_times(s, (n - 1) as nat);
        assert(before.queue.subrange(1, before.queue.len() as int) =~= s.queue.subrange(
            n as int,
            s.queue.len() as int,
        ));
    }
}

/// After `invalidate_all`, a bridge of before the call delivers nothing
/// more: whatever the session does afterwards, the turn of such a bridge is
/// refused and leaves the session, and so its queue, as it was.
pub proof fn lemma_invalidated_bridges_deliver_nothing(s: SessionView, ops: Seq<SessionOp>, k: int)
    requires
        s.wf(),
        0 <= k < ops.len(),
        ops[k] is Forward,
        ops[k]->bridge < s.issued,
    ensures
        session_step(session_run(s.invalidated(), ops.subrange(0, k)), ops[k]) == (
            SessionOut::Bridge(Forwarded::Cancelled),
            session_run(s.invalidated(), ops.subrange(0, k)),
        ),
{
    let start = s.invalidated();
    let head = ops.subrange(0, k);
    lemma_new_bridges_number_on(start, head);
    let before = session_run(start, head);
    lemma_slot_of(before.bridges, ops[k]->bridge);
}

/// The bridges that a run adds are numbered from where the numbering stood.
pub proof fn lemma_new_bridges_number_on(s: SessionView, ops: Seq<SessionOp>)
    requires
        forall|i: int| 0 <= i < s.bridges.len() ==> (#[trigger] s.bridges[i]).id >= s.issued,
    ensures
        forall|i: int|
            0 <= i < session_run(s, ops).bridges.len() ==> (#[trigger] session_run(s, ops).bridges[i]).id
                >= s.issued,
        session_run(s, ops).issued >= s.issued,
    decreases ops.len(),
{
    if ops.len() > 0 {
        let front = ops.drop_last();
        lemma_new_bridges_number_on(s, front);
        let before = session_run(s, front);
        let after = session_run(s, ops);
        match ops.last() {
            SessionOp::Forward { bridge, logs } => {
                lemma_slot_of(before.bridges, bridge);
            },
            _ => {},
        }
        assert forall|i: int| 0 <= i < after.bridges.len() implies (#[trigger] after.bridges[i]).id
            >= s.issued by {
            if i < before.bridges.len() {
                assert(before.bridges[i].id >= s.issued);
            }
        }
    }
}

} // verus!
