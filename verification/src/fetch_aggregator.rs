//! The registry of pollers: one poller for each distinct fetch target.

use crate::fanout::{receive, Cursor, Received};
use crate::fetcher::{
    completion_step, egress_plan, egress_views, signed_tick_step, tick_step, Completion, FetchOutcome, Fetcher,
    FetcherView, TickPlan,
};
use crate::request::url_parts;
use crate::session::{Session, SessionView};
use crate::target::{text_view, Fingerprint, RequestPayload};
use vstd::prelude::*;

verus! {

/// The fingerprints on record after a subscription to `key`: a new
/// fingerprint is added at the end, a known one changes nothing.
pub open spec fn registered(keys: Seq<Fingerprint>, key: Fingerprint) -> Seq<Fingerprint> {
    if keys.contains(key) {
        keys
    } else {
        keys.push(key)
    }
}

/// The fingerprints on record after a run of subscriptions, in the order of
/// first appearance.
pub open spec fn registered_all(requests: Seq<Fingerprint>) -> Seq<Fingerprint>
    decreases requests.len(),
{
    if requests.len() == 0 {
        Seq::empty()
    } else {
        registered(registered_all(requests.drop_last()), requests.last())
    }
}

/// However many subscriptions are made, the registry holds one poller for
/// each distinct fingerprint among them: no fingerprint is on record twice,
/// each requested one is on record, and the number of pollers is the number
/// of distinct fingerprints, not the number of subscriptions.
pub proof fn lemma_one_poller_per_fingerprint(requests: Seq<Fingerprint>)
    ensures
        registered_all(requests).no_duplicates(),
        registered_all(requests).to_set() == requests.to_set(),
        registered_all(requests).len() == requests.to_set().len(),
    decreases requests.len(),
{
    let all = registered_all(requests);
    if requests.len() == 0 {
        assert(all.to_set() =~= requests.to_set());
        requests.lemma_cardinality_of_empty_set_is_0();
    } else {
        let front = requests.drop_last();
        let key = requests.last();
        lemma_one_poller_per_fingerprint(front);
        let before = registered_all(front);
        assert(requests =~= front.push(key));
        assert forall|k: Fingerprint| requests.to_set().contains(k) <==> (front.to_set().contains(k)
            || k == key) by {
            if requests.contains(k) {
                let i = choose|i: int| 0 <= i < requests.len() && requests[i] == k;
                if i < front.len() {
                    assert(front[i] == k);
                }
            }
            if front.contains(k) {
                let i = choose|i: int| 0 <= i < front.len() && front[i] == k;
                assert(requests[i] == k);
            }
            if k == key {
                assert(requests[requests.len() - 1] == k);
            }
        }
        if before.contains(key) {
            assert(all == before);
            assert(front.to_set().contains(key));
            assert(all.to_set() =~= requests.to_set());
        } else {
            assert(all == before.push(key));
            assert forall|k: Fingerprint| all.to_set().contains(k) <==> (before.to_set().contains(k)
                || k == key) by {
                if all.contains(k) {
                    let i = choose|i: int| 0 <= i < all.len() && all[i] == k;
                    if i < before.len() {
                        assert(before[i] == k);
                    }
                }
                if before.contains(k) {
                    let i = choose|i: int| 0 <= i < before.len() && before[i] == k;
                    assert(all[i] == k);
                }
                if k == key {
                    assert(all[all.len() - 1] == k);
                }
            }
            assert(all.to_set() =~= requests.to_set());
        }
        all.unique_seq_to_set();
    }
}

/// Process-wide registry of pollers, keyed by fingerprint. A poller is made
/// on the first subscription to its fingerprint and stays on record.
pub struct FetchAggregator {
    fetchers: Vec<Fetcher>,
    addresses: Option<String>,
}

impl FetchAggregator {
    /// The pollers on record, in the order they were made.
    pub closed spec fn pollers(&self) -> Seq<FetcherView> {
        self.fetchers@.map_values(|f: Fetcher| f@)
    }

    /// The machine's list of local egress addresses, if it has one.
    pub closed spec fn addresses(&self) -> Option<Seq<char>> {
        text_view(self.addresses)
    }

    /// The fingerprints on record, in the order their pollers were made.
    pub open spec fn fingerprints(&self) -> Seq<Fingerprint> {
        self.pollers().map_values(|f: FetcherView| f.target.fingerprint())
    }

    /// Every poller is in order, and no two have the same fingerprint.
    pub closed spec fn wf(&self) -> bool {
        &&& forall|i: int| 0 <= i < self.fetchers@.len() ==> (#[trigger] self.fetchers@[i]).wf()
        &&& self.fingerprints().no_duplicates()
    }

    /// At most one poller exists for a fingerprint.
    pub proof fn lemma_strict_dedup(&self)
        requires
            self.wf(),
        ensures
            self.fingerprints().no_duplicates(),
            self.fingerprints().len() == self.pollers().len(),
    {
    }

    /// An empty registry on a machine without configured egress addresses.
    pub fn new() -> (registry: FetchAggregator)
        ensures
            registry.wf(),
            registry.pollers() == Seq::<FetcherView>::empty(),
            registry.addresses() is None,
    {
        let registry = FetchAggregator { fetchers: Vec::new(), addresses: None };
        assert(registry.pollers() =~= Seq::<FetcherView>::empty());
        assert(registry.fingerprints() =~= Seq::<Fingerprint>::empty());
        registry
    }

    /// An empty registry on a machine with this comma-separated list of
    /// local egress addresses.
    pub fn with_addresses(addresses: String) -> (registry: FetchAggregator)
        ensures
            registry.wf(),
            registry.pollers() == Seq::<FetcherView>::empty(),
            registry.addresses() == Some(addresses@),
    {
        let registry = FetchAggregator { fetchers: Vec::new(), addresses: Some(addresses) };
        assert(registry.pollers() =~= Seq::<FetcherView>::empty());
        assert(registry.fingerprints() =~= Seq::<Fingerprint>::empty());
        registry
    }

    /// The number of pollers on record.
    pub fn len(&self) -> (count: usize)
        ensures
            count == self.pollers().len(),
    {
        self.fetchers.len()
    }

    /// The poller on record for the target's fingerprint, if there is one.
    pub fn find(&self, payload: &RequestPayload) -> (found: Option<usize>)
        requires
            self.wf(),
        ensures
            match found {
                Some(i) => i < self.pollers().len() && self.fingerprints()[i as int]
                    == payload.fingerprint(),
                None => !self.fingerprints().contains(payload.fingerprint()),
            },
    {
        let mut i: usize = 0;
        while i < self.fetchers.len()
            invariant
                i <= self.fetchers.len(),
                forall|j: int| 0 <= j < i ==> self.fingerprints()[j] != payload.fingerprint(),
            decreases self.fetchers.len() - i,
        {
            assert(self.fingerprints()[i as int] == self.fetchers@[i as int]@.target.fingerprint());
            if self.fetchers[i].payload().same_target(payload) {
                return Some(i);
            }
            i += 1;
        }
        None
    }

    /// Returns the poller for the target's fingerprint, making it if this
    /// is the first subscription to that fingerprint. The period and the
    /// headers of a later subscription to a known fingerprint are not used.
    pub fn subscribe(&mut self, payload: RequestPayload, period_ms: u64) -> (handle: usize)
        requires
            old(self).wf(),
        ensures
            final(self).wf(),
            final(self).addresses() == old(self).addresses(),
            final(self).fingerprints() == registered(old(self).fingerprints(), payload.fingerprint()),
            handle < final(self).pollers().len(),
            final(self).fingerprints()[handle as int] == payload.fingerprint(),
            old(self).fingerprints().contains(payload.fingerprint()) ==> final(self).pollers() == old(
                self,
            ).pollers(),
            !old(self).fingerprints().contains(payload.fingerprint()) ==> final(self).pollers() == old(
                self,
            ).pollers().push(
                FetcherView {
                    target: payload@,
                    period_ms,
                    egress: egress_plan(payload.primary_only, old(self).addresses()),
                    index: 0,
                    in_flight: false,
                    cancelled: false,
                    published: Seq::empty(),
                },
            ),
    {
        match self.find(&payload) {
            Some(i) => i,
            None => {
                let ghost key = payload.fingerprint();
                let ghost keys = self.fingerprints();
                let ghost before = self.pollers();
                let fetcher = match &self.addresses {
                    Some(list) => Fetcher::new(payload, period_ms, Some(list.as_str())),
                    None => Fetcher::new(payload, period_ms, None),
                };
                let ghost made = fetcher@;
                self.fetchers.push(fetcher);
                assert(self.pollers() =~= before.push(made));
                assert(self.fingerprints() =~= keys.push(key));
                self.fetchers.len() - 1
            },
        }
    }

    /// A fresh session bound to this registry.
    pub fn new_session(&self) -> (session: Session)
        ensures
            session.wf(),
            session@ == SessionView::fresh(),
    {
        Session::new()
    }

    /// The target of a poller.
    pub fn payload(&self, handle: usize) -> (payload: &RequestPayload)
        requires
            handle < self.pollers().len(),
        ensures
            payload@ == self.pollers()[handle as int].target,
    {
        self.fetchers[handle].payload()
    }

    /// The time between two ticks of a poller, in milliseconds.
    pub fn period_ms(&self, handle: usize) -> (period: u64)
        requires
            handle < self.pollers().len(),
        ensures
            period == self.pollers()[handle as int].period_ms,
    {
        self.fetchers[handle].period_ms()
    }

    /// The local address of each client of a poller.
    pub fn egress(&self, handle: usize) -> (egress: &Vec<Option<String>>)
        requires
            handle < self.pollers().len(),
        ensures
            egress_views(egress@) == self.pollers()[handle as int].egress,
    {
        self.fetchers[handle].egress()
    }

    /// The number of results a poller has published.
    pub fn produced(&self, handle: usize) -> (count: u64)
        requires
            self.wf(),
            handle < self.pollers().len(),
        ensures
            count == self.pollers()[handle as int].published.len(),
    {
        self.fetchers[handle].produced()
    }

    /// Decides what the tick of a poller's timer leads to.
    pub fn tick(&mut self, handle: usize) -> (plan: TickPlan)
        requires
            old(self).wf(),
            handle < old(self).pollers().len(),
        ensures
            final(self).wf(),
            final(self).addresses() == old(self).addresses(),
            only_changed(old(self).pollers(), final(self).pollers(), handle as int),
            tick_step(
                old(self).pollers()[handle as int],
                url_parts(old(self).pollers()[handle as int].target.url),
                plan@,
                final(self).pollers()[handle as int],
            ),
    {
        let ghost keys = self.fingerprints();
        let plan = self.fetchers[handle].tick();
        proof {
            assert(self.fingerprints() =~= keys);
        }
        plan
    }

    /// Goes on with a tick that asked for a signature.
    pub fn tick_signed(&mut self, handle: usize, signed: &RequestPayload) -> (plan: TickPlan)
        requires
            old(self).wf(),
            handle < old(self).pollers().len(),
        ensures
            final(self).wf(),
            final(self).addresses() == old(self).addresses(),
            only_changed(old(self).pollers(), final(self).pollers(), handle as int),
            signed_tick_step(
                old(self).pollers()[handle as int],
                signed@,
                url_parts(signed@.url),
                plan@,
                final(self).pollers()[handle as int],
            ),
    {
        let ghost keys = self.fingerprints();
        let plan = self.fetchers[handle].tick_signed(signed);
        proof {
            assert(self.fingerprints() =~= keys);
        }
        plan
    }

    /// Takes the outcome of the request that a poller's last tick dispatched.
    pub fn complete(&mut self, handle: usize, outcome: FetchOutcome) -> (done: Completion)
        requires
            old(self).wf(),
            handle < old(self).pollers().len(),
        ensures
            final(self).wf(),
            final(self).addresses() == old(self).addresses(),
            only_changed(old(self).pollers(), final(self).pollers(), handle as int),
            completion_step(
                old(self).pollers()[handle as int],
                outcome@,
                done,
                final(self).pollers()[handle as int],
            ),
    {
        let ghost keys = self.fingerprints();
        let done = self.fetchers[handle].complete(outcome);
        proof {
            assert(self.fingerprints() =~= keys);
        }
        done
    }

    /// Cancels a poller. It stays on record.
    pub fn cancel(&mut self, handle: usize)
        requires
            old(self).wf(),
            handle < old(self).pollers().len(),
        ensures
            final(self).wf(),
            final(self).addresses() == old(self).addresses(),
            only_changed(old(self).pollers(), final(self).pollers(), handle as int),
            final(self).pollers()[handle as int] == (FetcherView {
                cancelled: true,
                ..old(self).pollers()[handle as int]
            }),
    {
        let ghost keys = self.fingerprints();
        self.fetchers[handle].cancel();
        proof {
            assert(self.fingerprints() =~= keys);
        }
    }

    /// Attaches a new subscriber to a poller.
    pub fn attach(&self, handle: usize) -> (cursor: Cursor)
        requires
            self.wf(),
            handle < self.pollers().len(),
        ensures
            cursor.position() == self.pollers()[handle as int].published.len(),
    {
        self.fetchers[handle].subscribe()
    }

    /// Reads a poller's next result for the subscriber at `cursor`, without
    /// waiting.
    pub fn next(&self, handle: usize, cursor: &mut Cursor) -> (got: Received)
        requires
            self.wf(),
            handle < self.pollers().len(),
        ensures
            (got@, final(cursor).position()) == receive(
                self.pollers()[handle as int].published,
                old(cursor).position(),
            ),
    {
        self.fetchers[handle].next(cursor)
    }
}

/// The pollers `after` are the pollers `before`, but for the one at `handle`.
pub open spec fn only_changed(before: Seq<FetcherView>, after: Seq<FetcherView>, handle: int) -> bool {
    &&& after.len() == before.len()
    &&& forall|i: int| 0 <= i < before.len() && i != handle ==> after[i] == before[i]
}

} // verus!
