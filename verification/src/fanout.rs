//! The bounded fan-out channel between one poller and its subscribers.
//!
//! The producer never waits: the channel keeps the newest results, up to its
//! capacity, and a consumer that has fallen further behind loses the oldest
//! ones. Each consumer reads through a cursor of its own.

use crate::response::{payload_views, ResponsePayload, ResponseView};
use std::collections::VecDeque;
use vstd::prelude::*;

verus! {

/// How many results a channel keeps for consumers that have not read them yet.
pub const CHANNEL_CAPACITY: usize = 32;

/// The position of the oldest result that is still kept once `total` results
/// have been published.
pub open spec fn oldest_retained(total: nat) -> nat {
    if total > CHANNEL_CAPACITY {
        (total - CHANNEL_CAPACITY) as nat
    } else {
        0
    }
}

/// What one read gave, as plain values.
pub ghost enum ReceivedView {
    Empty,
    Lagged(nat),
    Item(ResponseView),
}

/// What a consumer at `position` reads from a channel on which `log` has been
/// published, and where its cursor stands afterwards.
pub open spec fn receive(log: Seq<ResponseView>, position: nat) -> (ReceivedView, nat) {
    if position >= log.len() {
        (ReceivedView::Empty, position)
    } else if position < oldest_retained(log.len()) {
        (
            ReceivedView::Lagged((oldest_retained(log.len()) - position) as nat),
            oldest_retained(log.len()),
        )
    } else {
        (ReceivedView::Item(log[position as int]), position + 1)
    }
}

/// What one read gave.
#[derive(Debug)]
pub enum Received {
    /// Nothing has been published since the last read.
    Empty,
    /// The consumer fell behind: this many results were dropped unread, and
    /// the cursor now stands at the oldest one that is kept.
    Lagged(u64),
    /// The next result, in the order of publication.
    Item(ResponsePayload),
}

impl View for Received {
    type V = ReceivedView;

    open spec fn view(&self) -> ReceivedView {
        match self {
            Received::Empty => ReceivedView::Empty,
            Received::Lagged(n) => ReceivedView::Lagged(*n as nat),
            Received::Item(p) => ReceivedView::Item(p@),
        }
    }
}

/// A consumer's place in a channel: the number of the next result it reads.
#[derive(Clone, Copy, Debug, PartialEq, Eq, Structural)]
pub struct Cursor {
    pub next: u64,
}

impl Cursor {
    /// The position as a number.
    pub open spec fn position(&self) -> nat {
        self.next as nat
    }
}

/// A bounded channel from one producer to any number of consumers.
pub struct Fanout {
    ring: VecDeque<ResponsePayload>,
    produced: u64,
    log: Ghost<Seq<ResponseView>>,
}

impl Fanout {
    /// Everything that was ever published, oldest first.
    pub closed spec fn published(&self) -> Seq<ResponseView> {
        self.log@
    }

    /// The channel keeps exactly the newest results, up to its capacity.
    pub closed spec fn wf(&self) -> bool {
        &&& self.log@.len() == self.produced
        &&& self.produced - self.ring@.len() == oldest_retained(self.produced as nat)
        &&& payload_views(self.ring@) == self.log@.subrange(
            oldest_retained(self.produced as nat) as int,
            self.produced as int,
        )
    }

    /// An empty channel.
    pub fn new() -> (channel: Fanout)
        ensures
            channel.wf(),
            channel.published() == Seq::<ResponseView>::empty(),
    {
        let channel = Fanout { ring: VecDeque::new(), produced: 0, log: Ghost(Seq::empty()) };
        assert(payload_views(channel.ring@) =~= channel.log@.subrange(0, 0));
        channel
    }

    /// The number of results published so far.
    pub fn produced(&self) -> (count: u64)
        requires
            self.wf(),
        ensures
            count == self.published().len(),
    {
        self.produced
    }

    /// The number of results that are kept for reading.
    pub fn retained(&self) -> (count: usize)
        requires
            self.wf(),
        ensures
            count == self.published().len() - oldest_retained(self.published().len()),
            count <= CHANNEL_CAPACITY,
    {
        self.ring.len()
    }

    /// Publishes one result to all consumers at once. The producer never
    /// waits for a consumer: where the channel is full, the oldest result
    /// leaves it.
    pub fn publish(&mut self, payload: ResponsePayload)
        requires
            old(self).wf(),
            old(self).published().len() < u64::MAX,
        ensures
            final(self).wf(),
            final(self).published() == old(self).published().push(payload@),
    {
        let ghost before = payload_views(self.ring@);
        let ghost old_log = self.log@;
        let ghost item = payload@;
        if self.ring.len() >= CHANNEL_CAPACITY {
            let _ = self.ring.pop_front();
            assert(payload_views(self.ring@) =~= before.subrange(1, before.len() as int));
        }
        let ghost middle = payload_views(self.ring@);
        self.ring.push_back(payload);
        self.produced = self.produced + 1;
        proof {
            self.log@ = old_log.push(item);
            let oldest = oldest_retained(self.produced as nat) as int;
            assert(payload_views(self.ring@) =~= middle.push(item));
            assert(middle =~= old_log.subrange(oldest, old_log.len() as int));
            assert(middle.push(item) =~= self.log@.subrange(oldest, self.produced as int));
        }
    }

    /// Attaches a new consumer. It reads what is published from now on.
    pub fn subscribe(&self) -> (cursor: Cursor)
        requires
            self.wf(),
        ensures
            cursor.position() == self.published().len(),
    {
        Cursor { next: self.produced }
    }

    /// Reads the next result for the consumer at `cursor`, without waiting.
    pub fn recv(&self, cursor: &mut Cursor) -> (got: Received)
        requires
            self.wf(),
        ensures
            (got@, final(cursor).position()) == receive(self.published(), old(cursor).position()),
    {
        let total: u64 = self.produced;
        let kept: u64 = self.ring.len() as u64;
        let oldest: u64 = total - kept;
        if cursor.next >= total {
            Received::Empty
        } else if cursor.next < oldest {
            let skipped: u64 = oldest - cursor.next;
            cursor.next = oldest;
            Received::Lagged(skipped)
        } else {
            let offset: usize = (cursor.next - oldest) as usize;
            assert(payload_views(self.ring@)[offset as int] == self.ring@[offset as int]@);
            let item = self.ring[offset].duplicate();
            cursor.next = cursor.next + 1;
            Received::Item(item)
        }
    }
}

/// One step in the life of a channel, as seen by one consumer.
pub ghost enum ChannelOp {
    /// The producer publishes a result.
    Publish(ResponseView),
    /// The consumer reads once.
    Receive,
}

/// A channel together with one of its consumers: what has been published,
/// where the consumer stands, and what it has been handed so far.
pub ghost struct Consumer {
    pub log: Seq<ResponseView>,
    pub position: nat,
    pub got: Seq<ResponseView>,
}

/// A consumer that attaches to a channel on which `log` has been published.
pub open spec fn attach(log: Seq<ResponseView>) -> Consumer {
    Consumer { log, position: log.len(), got: Seq::empty() }
}

/// The effect of one step.
pub open spec fn apply_op(c: Consumer, op: ChannelOp) -> Consumer {
    match op {
        ChannelOp::Publish(item) => Consumer { log: c.log.push(item), position: c.position, got: c.got },
        ChannelOp::Receive => {
            let (read, position) = receive(c.log, c.position);
            Consumer {
                log: c.log,
                position,
                got: match read {
                    ReceivedView::Item(item) => c.got.push(item),
                    _ => c.got,
                },
            }
        },
    }
}

/// The effect of a run of steps.
pub open spec fn run_ops(start: Consumer, ops: Seq<ChannelOp>) -> Consumer
    decreases ops.len(),
{
    if ops.len() == 0 {
        start
    } else {
        apply_op(run_ops(start, ops.drop_last()), ops.last())
    }
}

/// At every read of the run, the consumer is at most the channel's capacity
/// behind the producer.
pub open spec fn keeps_up(start: Consumer, ops: Seq<ChannelOp>) -> bool {
    forall|k: int|
        0 <= k < ops.len() && #[trigger] ops[k] is Receive ==> {
            let c = run_ops(start, ops.subrange(0, k));
            c.log.len() - c.position <= CHANNEL_CAPACITY
        }
}

/// A consumer that keeps up is handed every result published since it
/// attached, each once and in the order of publication: after any run of
/// publications and reads, what it has got is the stretch of the log from
/// where it attached to where its cursor stands.
pub proof fn lemma_in_order_delivery(log: Seq<ResponseView>, ops: Seq<ChannelOp>)
    requires
        keeps_up(attach(log), ops),
    ensures
        run_ops(attach(log), ops).position <= run_ops(attach(log), ops).log.len(),
        log.len() <= run_ops(attach(log), ops).position,
        run_ops(attach(log), ops).got == run_ops(attach(log), ops).log.subrange(
            log.len() as int,
            run_ops(attach(log), ops).position as int,
        ),
        log.len() <= run_ops(attach(log), ops).log.len(),
        run_ops(attach(log), ops).log.subrange(0, log.len() as int) == log,
    decreases ops.len(),
{
    let start = attach(log);
    if ops.len() == 0 {
        assert(start.got =~= start.log.subrange(log.len() as int, start.position as int));
        assert(start.log.subrange(0, log.len() as int) =~= log);
    } else {
        let front = ops.drop_last();
        assert forall|k: int| 0 <= k < front.len() && #[trigger] front[k] is Receive implies {
            let c = run_ops(start, front.subrange(0, k));
            c.log.len() - c.position <= CHANNEL_CAPACITY
        } by {
            assert(front[k] == ops[k]);
            assert(front.subrange(0, k) =~= ops.subrange(0, k));
        }
        lemma_in_order_delivery(log, front);
        let before = run_ops(start, front);
        let after = apply_op(before, ops.last());
        match ops.last() {
            ChannelOp::Publish(item) => {
                assert(after.got =~= after.log.subrange(log.len() as int, after.position as int));
                assert(after.log.subrange(0, log.len() as int) =~= log);
            },
            ChannelOp::Receive => {
                let k = ops.len() - 1;
                assert(ops[k] is Receive);
                assert(ops.subrange(0, k) =~= front);
                assert(before.log.len() - before.position <= CHANNEL_CAPACITY);
                assert(after.got =~= after.log.subrange(log.len() as int, after.position as int));
            },
        }
    }
}

/// Publishing asks nothing of the consumers: whatever a consumer's cursor,
/// and however long it has not read, the result is appended to the log.
pub proof fn lemma_producer_never_waits(c: Consumer, item: ResponseView)
    ensures
        apply_op(c, ChannelOp::Publish(item)).log == c.log.push(item),
        apply_op(c, ChannelOp::Publish(item)).position == c.position,
{
}

} // verus!
