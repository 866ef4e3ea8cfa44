//! The poller: one fetch target, asked again on every tick of a timer, and
//! each result handed to all subscribers at once.
//!
//! The timer, the network and the clock are outside. Here are the poller's
//! decisions: what a tick leads to, and what becomes of the outcome.

use crate::fanout::{receive, Cursor, Fanout, Received};
use crate::request::{
    build_outcome, build_request, request_for, url_parts, OutboundRequest, RequestView,
};
use crate::response::{ResponsePayload, ResponseView};
use crate::target::{header_views, text_view, Header, RequestPayload, TargetError, TargetView};
use vstd::prelude::*;
use vstd::string::*;

verus! {

/// The pieces of `s` between its commas, in order. A text without a comma
/// is one piece; two commas in a row enclose an empty piece.
pub open spec fn comma_split(s: Seq<char>) -> Seq<Seq<char>>
    decreases s.len(),
{
    if s.len() == 0 {
        seq![Seq::empty()]
    } else {
        let front = comma_split(s.drop_last());
        if s.last() == ',' {
            front.push(Seq::empty())
        } else {
            front.drop_last().push(front.last().push(s.last()))
        }
    }
}

/// The pieces joined again, with a comma between each two.
pub open spec fn comma_join(pieces: Seq<Seq<char>>) -> Seq<char>
    decreases pieces.len(),
{
    if pieces.len() == 0 {
        Seq::empty()
    } else if pieces.len() == 1 {
        pieces[0]
    } else {
        comma_join(pieces.drop_last()) + seq![','] + pieces.last()
    }
}

/// Splitting loses nothing: there is at least one piece, no piece holds a
/// comma, and the pieces joined by commas give the text back.
pub proof fn lemma_comma_split_joins(s: Seq<char>)
    ensures
        comma_split(s).len() >= 1,
        forall|i: int, j: int|
            0 <= i < comma_split(s).len() && 0 <= j < comma_split(s)[i].len() ==> comma_split(
                s,
            )[i][j] != ',',
        comma_join(comma_split(s)) == s,
    decreases s.len(),
{
    if s.len() == 0 {
        assert(comma_join(comma_split(s)) =~= s);
    } else {
        let front = comma_split(s.drop_last());
        lemma_comma_split_joins(s.drop_last());
        if s.last() == ',' {
            let all = front.push(Seq::empty());
            assert(all.drop_last() =~= front);
            assert(comma_join(all) =~= s);
        } else {
            let piece = front.last().push(s.last());
            let all = front.drop_last().push(piece);
            if front.len() == 1 {
                assert(comma_join(front) == front[0]);
                assert(all.len() == 1 && all[0] == piece);
                assert(s.drop_last().push(s.last()) =~= s);
                assert(comma_join(all) =~= s);
            } else {
                assert(all.drop_last() =~= front.drop_last());
                assert(comma_join(all) =~= comma_join(front.drop_last()) + seq![','] + piece);
                assert(comma_join(front) =~= comma_join(front.drop_last()) + seq![','] + front.last());
                assert(s.drop_last().push(s.last()) =~= s);
                assert(comma_join(all) =~= s);
            }
        }
    }
}

/// What a list of texts says.
pub open spec fn text_views(texts: Seq<String>) -> Seq<Seq<char>> {
    texts.map_values(|t: String| t@)
}

/// Splits a comma-separated list: there is at least one piece, no piece
/// holds a comma, and the pieces joined by commas give the list back.
pub fn split_commas(list: &str) -> (pieces: Vec<String>)
    ensures
        text_views(pieces@) == comma_split(list@),
        pieces@.len() >= 1,
        comma_join(text_views(pieces@)) == list@,
        forall|i: int, j: int|
            0 <= i < pieces@.len() && 0 <= j < pieces@[i]@.len() ==> pieces@[i]@[j] != ',',
{
    proof {
        lemma_comma_split_joins(list@);
    }
    let n: usize = list.unicode_len();
    let mut pieces: Vec<String> = Vec::new();
    let mut start: usize = 0;
    let mut i: usize = 0;
    assert(list@.subrange(0, 0) =~= Seq::<char>::empty());
    assert(text_views(pieces@).push(list@.subrange(0, 0)) =~= comma_split(list@.subrange(0, 0)));
    while i < n
        invariant
            start <= i <= n,
            n == list@.len(),
            text_views(pieces@).push(list@.subrange(start as int, i as int)) == comma_split(
                list@.subrange(0, i as int),
            ),
        decreases n - i,
    {
        let c = list.get_char(i);
        let ghost prefix = list@.subrange(0, i + 1);
        assert(prefix.drop_last() =~= list@.subrange(0, i as int));
        assert(prefix.last() == c);
        let ghost done = text_views(pieces@);
        let ghost current = list@.subrange(start as int, i as int);
        if c == ',' {
            let piece = String::from_str(list.substring_char(start, i));
            pieces.push(piece);
            start = i + 1;
            assert(text_views(pieces@) =~= done.push(current));
            assert(list@.subrange(start as int, i + 1) =~= Seq::<char>::empty());
        } else {
            assert(done.push(current).drop_last() =~= done);
            assert(list@.subrange(start as int, i + 1) =~= current.push(c));
        }
        i += 1;
    }
    let ghost done = text_views(pieces@);
    let piece = String::from_str(list.substring_char(start, n));
    pieces.push(piece);
    assert(text_views(pieces@) =~= done.push(list@.subrange(start as int, n as int)));
    assert(list@.subrange(0, n as int) =~= list@);
    assert forall|i: int, j: int| 0 <= i < pieces@.len() && 0 <= j < pieces@[i]@.len() implies pieces@[i]@[j]
        != ',' by {
        assert(text_views(pieces@)[i] == pieces@[i]@);
    }
    pieces
}

/// The local address of each client a poller sends through; no address
/// stands for the machine's default. A target that asks for the primary
/// address, or a machine without configured addresses, has the one default
/// client; else there is a client for each configured address.
pub open spec fn egress_plan(primary_only: bool, addresses: Option<Seq<char>>) -> Seq<Option<Seq<char>>> {
    match addresses {
        Some(list) if !primary_only => comma_split(list).map_values(|a: Seq<char>| Some(a)),
        _ => seq![None],
    }
}

/// What a list of optional texts says.
pub open spec fn egress_views(egress: Seq<Option<String>>) -> Seq<Option<Seq<char>>> {
    egress.map_values(|a: Option<String>| text_view(a))
}

/// The host under which a poller reads the local clock instead of the network.
pub open spec fn clock_host() -> Seq<char> {
    seq!['m', 'i', 'l', 'l', 'i', 's', '.', 'l', 'o', 'c', 'a', 'l']
}

/// The decimal digits of `n`, as ASCII.
pub open spec fn decimal_digits(n: nat) -> Seq<u8>
    decreases n,
{
    if n < 10 {
        seq![(48 + n) as u8]
    } else {
        decimal_digits(n / 10).push((48 + n % 10) as u8)
    }
}

/// Writes `n` in decimal.
pub fn decimal_text(n: u64) -> (text: Vec<u8>)
    ensures
        text@ == decimal_digits(n as nat),
    decreases n,
{
    if n < 10 {
        let mut text: Vec<u8> = Vec::new();
        text.push(48 + n as u8);
        assert(text@ =~= decimal_digits(n as nat));
        text
    } else {
        let mut text = decimal_text(n / 10);
        text.push(48 + (n % 10) as u8);
        text
    }
}

/// The index after `index`, starting over at zero after the largest.
pub open spec fn next_index(index: usize) -> usize {
    if index == usize::MAX {
        0
    } else {
        (index + 1) as usize
    }
}

/// A poller as plain values.
pub ghost struct FetcherView {
    pub target: TargetView,
    pub period_ms: u64,
    /// The local address of each client, in the order they take turns.
    pub egress: Seq<Option<Seq<char>>>,
    /// The turn counter of the clients.
    pub index: usize,
    /// A request has been dispatched and its outcome is still owed.
    pub in_flight: bool,
    pub cancelled: bool,
    /// Every result published so far.
    pub published: Seq<ResponseView>,
}

/// What a tick leads to.
#[derive(Debug)]
pub enum TickPlan {
    /// The poller was cancelled: its task ends.
    Stop,
    /// The outcome of the last request is still owed: nothing is sent.
    Busy,
    /// The target must be signed first, by the signer of this name.
    Sign(String),
    /// No request can be built from the target: the tick is skipped.
    Skip(TargetError),
    /// The target names the local clock: its reading is the result.
    Clock,
    /// Send `request` through the client of this number.
    Dispatch { client: usize, request: OutboundRequest },
}

/// A tick's plan as plain values.
pub ghost enum TickPlanView {
    Stop,
    Busy,
    Sign(Seq<char>),
    Skip(TargetError),
    Clock,
    Dispatch { client: usize, request: RequestView },
}

impl View for TickPlan {
    type V = TickPlanView;

    open spec fn view(&self) -> TickPlanView {
        match self {
            TickPlan::Stop => TickPlanView::Stop,
            TickPlan::Busy => TickPlanView::Busy,
            TickPlan::Sign(name) => TickPlanView::Sign(name@),
            TickPlan::Skip(e) => TickPlanView::Skip(*e),
            TickPlan::Clock => TickPlanView::Clock,
            TickPlan::Dispatch { client, request } => TickPlanView::Dispatch {
                client: *client,
                request: request@,
            },
        }
    }
}

/// How a dispatched request ended.
#[derive(Debug)]
pub enum FetchOutcome {
    /// A response arrived and its body was read in full.
    Response { status: u16, headers: Vec<Header>, content: Vec<u8> },
    /// The local clock was read: milliseconds since the Unix epoch.
    Clock { millis: u64 },
    /// A response arrived but its body could not be read.
    Unreadable,
    /// No response arrived.
    TransportError,
}

/// What became of an outcome.
#[derive(Clone, Copy, Debug, PartialEq, Eq, Structural)]
pub enum Completion {
    /// A result was published to all subscribers.
    Published,
    /// The tick gave no result; the poller goes on with the next tick.
    Skipped,
    /// No request was in flight: the outcome belongs to no tick.
    Ignored,
    /// The poller was cancelled: the outcome is abandoned and the task ends.
    Stop,
}

/// The request that a tick plans from `target`, whose URL parsed into
/// `parts`: `plan` and the poller `after` the tick, from the poller `before`.
pub open spec fn plans_request(
    before: FetcherView,
    target: TargetView,
    parts: Option<(Seq<char>, Option<Seq<char>>)>,
    plan: TickPlanView,
    after: FetcherView,
) -> bool {
    match plan {
        TickPlanView::Skip(e) => build_outcome(target, parts, Err(e)) && after == before,
        TickPlanView::Clock => {
            &&& parts matches Some(p)
            &&& p.1 == Some(clock_host())
            &&& build_outcome(target, parts, Ok(request_for(target, p)))
            &&& after == FetcherView { in_flight: true, ..before }
        },
        TickPlanView::Dispatch { client, request } => {
            &&& parts matches Some(p)
            &&& p.1 != Some(clock_host())
            &&& build_outcome(target, parts, Ok(request))
            &&& before.egress.len() > 0
            &&& client == next_index(before.index) as int % before.egress.len() as int
            &&& after == FetcherView { in_flight: true, index: next_index(before.index), ..before }
        },
        _ => false,
    }
}

/// What a tick does: `plan` and the poller `after` it, from the poller
/// `before` it and from what parsing the target's URL gives.
pub open spec fn tick_step(
    before: FetcherView,
    parts: Option<(Seq<char>, Option<Seq<char>>)>,
    plan: TickPlanView,
    after: FetcherView,
) -> bool {
    if before.cancelled {
        plan == TickPlanView::Stop && after == before
    } else if before.in_flight {
        plan == TickPlanView::Busy && after == before
    } else if before.target.sign is Some {
        plan == TickPlanView::Sign(before.target.sign->0) && after == before
    } else {
        plans_request(before, before.target, parts, plan, after)
    }
}

/// What a tick does once the target has been signed.
pub open spec fn signed_tick_step(
    before: FetcherView,
    signed: TargetView,
    parts: Option<(Seq<char>, Option<Seq<char>>)>,
    plan: TickPlanView,
    after: FetcherView,
) -> bool {
    if before.cancelled {
        plan == TickPlanView::Stop && after == before
    } else if before.in_flight {
        plan == TickPlanView::Busy && after == before
    } else {
        plans_request(before, signed, parts, plan, after)
    }
}

/// An outcome as plain values.
pub ghost enum OutcomeView {
    Response { status: u16, headers: Seq<(Seq<char>, Seq<char>)>, content: Seq<u8> },
    Clock { millis: u64 },
    Unreadable,
    TransportError,
}

impl View for FetchOutcome {
    type V = OutcomeView;

    open spec fn view(&self) -> OutcomeView {
        match self {
            FetchOutcome::Response { status, headers, content } => OutcomeView::Response {
                status: *status,
                headers: header_views(headers@),
                content: content@,
            },
            FetchOutcome::Clock { millis } => OutcomeView::Clock { millis: *millis },
            FetchOutcome::Unreadable => OutcomeView::Unreadable,
            FetchOutcome::TransportError => OutcomeView::TransportError,
        }
    }
}

/// The result that an outcome leads to, if it leads to one.
pub open spec fn result_of(url: Seq<char>, outcome: OutcomeView) -> Option<ResponseView> {
    match outcome {
        OutcomeView::Response { status, headers, content } => Some(
            ResponseView::response(url, status, headers, content),
        ),
        OutcomeView::Clock { millis } => Some(
            ResponseView::response(url, 200, Seq::empty(), decimal_digits(millis as nat)),
        ),
        OutcomeView::Unreadable => None,
        OutcomeView::TransportError => None,
    }
}

/// What becomes of an outcome: `done` and the poller `after`, from the
/// poller `before`.
pub open spec fn completion_step(
    before: FetcherView,
    outcome: OutcomeView,
    done: Completion,
    after: FetcherView,
) -> bool {
    if before.cancelled {
        done == Completion::Stop && after == before
    } else if !before.in_flight {
        done == Completion::Ignored && after == before
    } else {
        match result_of(before.target.url, outcome) {
            Some(result) if before.published.len() < u64::MAX => {
                &&& done == Completion::Published
                &&& after == FetcherView {
                    in_flight: false,
                    published: before.published.push(result),
                    ..before
                }
            },
            _ => done == Completion::Skipped && after == FetcherView { in_flight: false, ..before },
        }
    }
}

/// One poller.
pub struct Fetcher {
    payload: RequestPayload,
    period_ms: u64,
    egress: Vec<Option<String>>,
    local_address_index: usize,
    in_flight: bool,
    cancelled: bool,
    channel: Fanout,
}

impl View for Fetcher {
    type V = FetcherView;

    closed spec fn view(&self) -> FetcherView {
        FetcherView {
            target: self.payload@,
            period_ms: self.period_ms,
            egress: egress_views(self.egress@),
            index: self.local_address_index,
            in_flight: self.in_flight,
            cancelled: self.cancelled,
            published: self.channel.published(),
        }
    }
}

fn is_clock_host(host: &Option<String>) -> (yes: bool)
    ensures
        yes == (text_view(*host) == Some(clock_host())),
{
    proof {
        reveal_strlit("millis.local");
        assert("millis.local"@ =~= clock_host());
    }
    match host {
        Some(h) => {
            let clock = String::from_str("millis.local");
            *h == clock
        },
        None => false,
    }
}

impl Fetcher {
    /// The poller has a client to send through, and its channel is in order.
    pub closed spec fn wf(&self) -> bool {
        &&& self.channel.wf()
        &&& self.egress@.len() >= 1
    }

    /// A poller for `payload` that has not ticked yet. `addresses` is the
    /// machine's comma-separated list of local egress addresses, if it has one.
    pub fn new(payload: RequestPayload, period_ms: u64, addresses: Option<&str>) -> (fetcher: Fetcher)
        ensures
            fetcher.wf(),
            fetcher@ == (FetcherView {
                target: payload@,
                period_ms,
                egress: egress_plan(
                    payload.primary_only,
                    match addresses {
                        Some(a) => Some(a@),
                        None => None,
                    },
                ),
                index: 0,
                in_flight: false,
                cancelled: false,
                published: Seq::empty(),
            }),
    {
        let mut egress: Vec<Option<String>> = Vec::new();
        let mut configured = false;
        if !payload.primary_only {
            match addresses {
                Some(list) => {
                    let pieces = split_commas(list);
                    proof {
                        lemma_comma_split_joins(list@);
                    }
                    let ghost all = text_views(pieces@);
                    assert(egress_views(egress@) =~= Seq::empty());
                    let mut i: usize = 0;
                    while i < pieces.len()
                        invariant
                            i <= pieces.len(),
                            text_views(pieces@) == all,
                            egress_views(egress@) == all.subrange(0, i as int).map_values(
                                |a: Seq<char>| Some(a),
                            ),
                        decreases pieces.len() - i,
                    {
                        let ghost before = egress_views(egress@);
                        let address = pieces[i].clone();
                        egress.push(Some(address));
                        assert(egress_views(egress@) =~= before.push(Some(all[i as int])));
                        assert(before.push(Some(all[i as int])) =~= all.subrange(0, i + 1).map_values(
                            |a: Seq<char>| Some(a),
                        ));
                        i += 1;
                    }
                    assert(all.subrange(0, i as int) =~= all);
                    configured = true;
                },
                None => {},
            }
        }
        if !configured {
            egress.push(None);
            assert(egress_views(egress@) =~= seq![None]);
        }
        Fetcher {
            payload,
            period_ms,
            egress,
            local_address_index: 0,
            in_flight: false,
            cancelled: false,
            channel: Fanout::new(),
        }
    }

    /// The target that this poller asks.
    pub fn payload(&self) -> (payload: &RequestPayload)
        ensures
            payload@ == self@.target,
    {
        &self.payload
    }

    /// The time between two ticks, in milliseconds.
    pub fn period_ms(&self) -> (period: u64)
        ensures
            period == self@.period_ms,
    {
        self.period_ms
    }

    /// The local address of each client, in the order they take turns.
    pub fn egress(&self) -> (egress: &Vec<Option<String>>)
        ensures
            egress_views(egress@) == self@.egress,
    {
        &self.egress
    }

    /// Whether the poller was cancelled.
    pub fn is_cancelled(&self) -> (cancelled: bool)
        ensures
            cancelled == self@.cancelled,
    {
        self.cancelled
    }

    /// The number of results published so far.
    pub fn produced(&self) -> (count: u64)
        requires
            self.wf(),
        ensures
            count == self@.published.len(),
    {
        self.channel.produced()
    }

    /// Cancels the poller. The signal is seen at the next tick or outcome;
    /// nothing is dispatched or published after it.
    pub fn cancel(&mut self)
        requires
            old(self).wf(),
        ensures
            final(self).wf(),
            final(self)@ == (FetcherView { cancelled: true, ..old(self)@ }),
    {
        self.cancelled = true;
    }

    fn plan_request(&mut self, target: &RequestPayload) -> (plan: TickPlan)
        requires
            old(self).wf(),
            !old(self)@.cancelled,
            !old(self)@.in_flight,
        ensures
            final(self).wf(),
            plans_request(old(self)@, target@, url_parts(target@.url), plan@, final(self)@),
    {
        match build_request(target) {
            Err(e) => TickPlan::Skip(e),
            Ok(request) => {
                if is_clock_host(&request.host) {
                    self.in_flight = true;
                    TickPlan::Clock
                } else {
                    let index: usize = if self.local_address_index == usize::MAX {
                        0
                    } else {
                        self.local_address_index + 1
                    };
                    self.local_address_index = index;
                    self.in_flight = true;
                    let client: usize = index % self.egress.len();
                    TickPlan::Dispatch { client, request }
                }
            },
        }
    }

    /// Decides what the tick of the timer leads to.
    pub fn tick(&mut self) -> (plan: TickPlan)
        requires
            old(self).wf(),
        ensures
            final(self).wf(),
            tick_step(old(self)@, url_parts(old(self)@.target.url), plan@, final(self)@),
    {
        if self.cancelled {
            return TickPlan::Stop;
        }
        if self.in_flight {
            return TickPlan::Busy;
        }
        match &self.payload.sign {
            Some(name) => {
                return TickPlan::Sign(name.clone());
            },
            None => {},
        }
        let target = self.payload.duplicate();
        self.plan_request(&target)
    }

    /// Goes on with a tick that asked for a signature: `signed` is the
    /// target as the signer returned it.
    pub fn tick_signed(&mut self, signed: &RequestPayload) -> (plan: TickPlan)
        requires
            old(self).wf(),
        ensures
            final(self).wf(),
            signed_tick_step(old(self)@, signed@, url_parts(signed@.url), plan@, final(self)@),
    {
        if self.cancelled {
            return TickPlan::Stop;
        }
        if self.in_flight {
            return TickPlan::Busy;
        }
        self.plan_request(signed)
    }

    /// Takes the outcome of the request that the last tick dispatched, and
    /// publishes its result if it has one.
    pub fn complete(&mut self, outcome: FetchOutcome) -> (done: Completion)
        requires
            old(self).wf(),
        ensures
            final(self).wf(),
            completion_step(old(self)@, outcome@, done, final(self)@),
    {
        if self.cancelled {
            return Completion::Stop;
        }
        if !self.in_flight {
            return Completion::Ignored;
        }
        self.in_flight = false;
        if self.channel.produced() == u64::MAX {
            return Completion::Skipped;
        }
        match outcome {
            FetchOutcome::Response { status, headers, content } => {
                let result = ResponsePayload::new(self.payload.url.as_str(), status, headers, content);
                self.channel.publish(result);
                Completion::Published
            },
            FetchOutcome::Clock { millis } => {
                let headers: Vec<Header> = Vec::new();
                assert(header_views(headers@) =~= Seq::empty());
                let result = ResponsePayload::new(
                    self.payload.url.as_str(),
                    200,
                    headers,
                    decimal_text(millis),
                );
                self.channel.publish(result);
                Completion::Published
            },
            FetchOutcome::Unreadable => Completion::Skipped,
            FetchOutcome::TransportError => Completion::Skipped,
        }
    }

    /// Attaches a new subscriber. It is handed what is published from now on.
    pub fn subscribe(&self) -> (cursor: Cursor)
        requires
            self.wf(),
        ensures
            cursor.position() == self@.published.len(),
    {
        self.channel.subscribe()
    }

    /// Reads the next result for the subscriber at `cursor`, without waiting.
    pub fn next(&self, cursor: &mut Cursor) -> (got: Received)
        requires
            self.wf(),
        ensures
            (got@, final(cursor).position()) == receive(self@.published, old(cursor).position()),
    {
        self.channel.recv(cursor)
    }
}

/// A cancelled poller stays cancelled and does nothing more: a tick ends its
/// task and dispatches no request, and an outcome that still arrives is
/// abandoned unpublished.
pub proof fn lemma_cancelled_poller_is_silent(
    before: FetcherView,
    parts: Option<(Seq<char>, Option<Seq<char>>)>,
    plan: TickPlanView,
    outcome: OutcomeView,
    done: Completion,
    after: FetcherView,
)
    requires
        before.cancelled,
    ensures
        tick_step(before, parts, plan, after) ==> plan == TickPlanView::Stop && after == before,
        completion_step(before, outcome, done, after) ==> done == Completion::Stop && after == before,
{
}

/// One step in the life of a poller: a tick of its timer with the plan it
/// led to, or the outcome of a request with what became of it.
pub ghost enum PollerStep {
    Tick { parts: Option<(Seq<char>, Option<Seq<char>>)>, plan: TickPlanView },
    Outcome { outcome: OutcomeView, done: Completion },
}

/// The step leads from the poller `before` to the poller `after`.
pub open spec fn poller_moves(before: FetcherView, step: PollerStep, after: FetcherView) -> bool {
    match step {
        PollerStep::Tick { parts, plan } => tick_step(before, parts, plan, after),
        PollerStep::Outcome { outcome, done } => completion_step(before, outcome, done, after),
    }
}

/// `states` are the states that a poller goes through under `steps`.
pub open spec fn poller_run(states: Seq<FetcherView>, steps: Seq<PollerStep>) -> bool {
    &&& states.len() == steps.len() + 1
    &&& forall|k: int| 0 <= k < steps.len() ==> poller_moves(states[k], #[trigger] steps[k], states[k + 1])
}

/// After its cancellation a poller dispatches no further request and
/// publishes no further result, whatever ticks and outcomes still come:
/// every later tick ends the task, every later outcome is abandoned, and the
/// poller stays as it was when it was cancelled.
pub proof fn lemma_nothing_after_cancellation(states: Seq<FetcherView>, steps: Seq<PollerStep>, k: int)
    requires
        poller_run(states, steps),
        states[0].cancelled,
        0 <= k < steps.len(),
    ensures
        states[k] == states[0],
        states[k + 1] == states[0],
        steps[k] matches PollerStep::Tick { plan, .. } ==> plan == TickPlanView::Stop,
        steps[k] matches PollerStep::Outcome { done, .. } ==> done == Completion::Stop,
    decreases k,
{
    if k > 0 {
        lemma_nothing_after_cancellation(states, steps, k - 1);
    }
    assert(poller_moves(states[k], steps[k], states[k + 1]));
}

/// The number of requests that the ticks among `steps` sent out, the
/// readings of the local clock counted in.
pub open spec fn dispatched(steps: Seq<PollerStep>) -> nat
    decreases steps.len(),
{
    if steps.len() == 0 {
        0
    } else {
        let sent: nat = match steps.last() {
            PollerStep::Tick { plan, .. } => if plan is Dispatch || plan is Clock {
                1
            } else {
                0
            },
            _ => 0,
        };
        dispatched(steps.drop_last()) + sent
    }
}

/// One, where the outcome of a request is still owed.
pub open spec fn owed(poller: FetcherView) -> nat {
    if poller.in_flight {
        1
    } else {
        0
    }
}

/// A poller never produces two results for one tick: over any run, the
/// results it publishes, with the one that may still be owed, are no more
/// than the requests its ticks sent out.
pub proof fn lemma_results_never_outnumber_requests(states: Seq<FetcherView>, steps: Seq<PollerStep>)
    requires
        poller_run(states, steps),
    ensures
        states.last().published.len() + owed(states.last()) <= states[0].published.len() + owed(
            states[0],
        ) + dispatched(steps),
    decreases steps.len(),
{
    if steps.len() > 0 {
        let front_states = states.drop_last();
        let front_steps = steps.drop_last();
        assert forall|k: int| 0 <= k < front_steps.len() implies poller_moves(
            front_states[k],
            #[trigger] front_steps[k],
            front_states[k + 1],
        ) by {
            assert(poller_moves(states[k], steps[k], states[k + 1]));
        }
        lemma_results_never_outnumber_requests(front_states, front_steps);
        let k = steps.len() - 1;
        assert(poller_moves(states[k], steps[k], states[k + 1]));
        assert(front_states.last() == states[k]);
        assert(states.last() == states[k + 1]);
    }
}

/// Every response is published: the outcome of the request in flight, if it
/// carries a response or a clock reading, becomes one more result at the
/// end of what the poller has published, unless the poller was cancelled.
pub proof fn lemma_every_response_is_published(
    before: FetcherView,
    outcome: OutcomeView,
    done: Completion,
    after: FetcherView,
)
    requires
        !before.cancelled,
        before.in_flight,
        before.published.len() < u64::MAX,
        outcome is Response || outcome is Clock,
        completion_step(before, outcome, done, after),
    ensures
        done == Completion::Published,
        result_of(before.target.url, outcome) is Some,
        after.published == before.published.push(result_of(before.target.url, outcome)->0),
        after.published.last().url == before.target.url,
{
}

/// A tick never leads to more than one result, and never to two requests
/// at once: a request goes out only when none is in flight, and an outcome
/// publishes at most one result and only for the request in flight.
pub proof fn lemma_one_result_per_tick(
    before: FetcherView,
    parts: Option<(Seq<char>, Option<Seq<char>>)>,
    plan: TickPlanView,
    outcome: OutcomeView,
    done: Completion,
    after: FetcherView,
)
    ensures
        tick_step(before, parts, plan, after) ==> after.published == before.published,
        tick_step(before, parts, plan, after) && (plan is Dispatch || plan is Clock)
            ==> !before.in_flight && after.in_flight,
        completion_step(before, outcome, done, after) ==> (after.published == before.published
            || (before.in_flight && !after.in_flight && after.published.len()
            == before.published.len() + 1 && after.published.drop_last() == before.published)),
{
    if completion_step(before, outcome, done, after) && after.published != before.published {
        assert(after.published.drop_last() =~= before.published);
    }
}

} // verus!
