//! Production generations: a producer's own bookkeeping while it hands items to the
//! consumer, and the dynamic requery engine that starts a new generation on every
//! query change and retires the previous one.
use vstd::prelude::*;

verus! {

/// What a producer knows of its own run.
pub struct Producer {
    /// How many items the consumer has accepted; also the index of the next item.
    pub sent: usize,
    /// Whether the producer has stopped for good.
    pub stopped: bool,
}

/// Whether a producer in state `p` may try to send another item, given whether
/// its generation's interrupt signal has been raised.
pub open spec fn may_send_spec(p: Producer, interrupted: bool) -> bool {
    !p.stopped && !interrupted
}

/// The producer state after a send attempt from `p` that `delivered` or failed.
pub open spec fn after_send(p: Producer, delivered: bool) -> Producer {
    if delivered {
        Producer { sent: (p.sent + 1) as usize, stopped: false }
    } else {
        Producer { sent: p.sent, stopped: true }
    }
}

impl Producer {
    /// A producer that has sent nothing yet.
    pub fn new() -> (r: Producer)
        ensures
            r.sent == 0,
            !r.stopped,
    {
        Producer { sent: 0, stopped: false }
    }

    /// Whether another item may be sent. The interrupt signal is polled before every
    /// item, and a producer that has stopped never sends again.
    pub fn may_send(&self, interrupted: bool) -> (r: bool)
        ensures
            r == may_send_spec(*self, interrupted),
    {
        !self.stopped && !interrupted
    }

    /// The index that the next item gets: items are numbered from 0 in the order
    /// they are sent.
    pub fn next_index(&self) -> (r: usize)
        ensures
            r == self.sent,
    {
        self.sent
    }

    /// Records how a send attempt ended. A failed send means the consumer is gone:
    /// the producer stops, without an error.
    pub fn record_send(&mut self, delivered: bool)
        requires
            !old(self).stopped,
            old(self).sent < usize::MAX,
        ensures
            *final(self) == after_send(*old(self), delivered),
    {
        if delivered {
            self.sent = self.sent + 1;
        } else {
            self.stopped = true;
        }
    }

    /// Records that the producer's interrupt signal was seen: it stops.
    pub fn interrupt(&mut self)
        ensures
            final(self).stopped,
            final(self).sent == old(self).sent,
    {
        self.stopped = true;
    }
}

/// The number of send attempts that a producer starting from `p` makes when the
/// sends would end as `outcomes` says, with no interrupt raised.
pub open spec fn attempts(p: Producer, outcomes: Seq<bool>) -> nat
    decreases outcomes.len(),
{
    if outcomes.len() == 0 || !may_send_spec(p, false) || p.sent == usize::MAX {
        0
    } else {
        1 + attempts(after_send(p, outcomes[0]), outcomes.drop_first())
    }
}

/// Once a send has failed, a producer attempts no further send, whatever the
/// interrupt signal says.
pub proof fn lemma_no_send_after_failure(p: Producer, interrupted: bool)
    requires
        !p.stopped,
    ensures
        !may_send_spec(after_send(p, false), interrupted),
{
}

/// A producer makes at most one attempt past the last delivered item: when the
/// first failure is at position `k`, it attempts exactly `k + 1` sends, so every
/// live producer stops within one iteration of losing its consumer.
pub proof fn lemma_attempts_end_at_first_failure(p: Producer, outcomes: Seq<bool>, k: int)
    requires
        !p.stopped,
        0 <= k < outcomes.len(),
        !outcomes[k],
        forall|j: int| 0 <= j < k ==> #[trigger] outcomes[j],
        p.sent + k < usize::MAX,
    ensures
        attempts(p, outcomes) == k + 1,
    decreases k,
{
    if k > 0 {
        let rest = outcomes.drop_first();
        assert(outcomes[0]);
        assert forall|j: int| 0 <= j < k - 1 implies #[trigger] rest[j] by {
            assert(rest[j] == outcomes[j + 1]);
        }
        lemma_attempts_end_at_first_failure(after_send(p, true), rest, k - 1);
    } else {
        let q = after_send(p, false);
        assert(attempts(q, outcomes.drop_first()) == 0);
    }
}

/// Where the requery engine stands.
#[derive(Clone, Copy, PartialEq, Eq, Structural, Debug)]
pub enum Phase {
    /// No generation is producing.
    Idle,
    /// The generation with this number is producing.
    Running(u64),
    /// The session has ended.
    Terminal,
}

/// What the caller must do after a query change.
#[derive(Clone, Copy, PartialEq, Eq, Structural, Debug)]
pub struct Requeried {
    /// The generation whose interrupt signal must be raised, if one was running.
    pub interrupt: Option<u64>,
    /// The new generation to start, with a fresh channel and interrupt signal.
    pub start: u64,
}

/// The dynamic requery engine together with the items the consumer shows.
pub struct Requery<T> {
    pub phase: Phase,
    /// The generation whose items the consumer shows, if any.
    pub subscribed: Option<u64>,
    /// The number that the next generation gets.
    pub next_generation: u64,
    /// The items shown, in the order they arrived.
    pub visible: Vec<T>,
}

/// A [`Requery`] with its items as a sequence.
pub struct RequeryView<T> {
    pub phase: Phase,
    pub subscribed: Option<u64>,
    pub next_generation: u64,
    pub visible: Seq<T>,
}

impl<T> View for Requery<T> {
    type V = RequeryView<T>;

    open spec fn view(&self) -> RequeryView<T> {
        RequeryView {
            phase: self.phase,
            subscribed: self.subscribed,
            next_generation: self.next_generation,
            visible: self.visible@,
        }
    }
}

/// Generations are numbered in the order they start: every number in use is
/// below `next_generation`, and the running generation is the one shown.
pub open spec fn requery_wf<T>(s: RequeryView<T>) -> bool {
    &&& (s.subscribed matches Some(g) ==> g < s.next_generation)
    &&& (s.phase matches Phase::Running(g) ==> s.subscribed == Some(g))
}

/// The state after an item of generation `g` arrives: it is shown only when `g` is
/// the generation the consumer is subscribed to.
pub open spec fn deliver_spec<T>(s: RequeryView<T>, g: u64, item: T) -> RequeryView<T> {
    if s.subscribed == Some(g) {
        RequeryView { visible: s.visible.push(item), ..s }
    } else {
        s
    }
}

/// The state after the items `ds` (generation, item) arrive in order.
pub open spec fn deliver_all<T>(s: RequeryView<T>, ds: Seq<(u64, T)>) -> RequeryView<T>
    decreases ds.len(),
{
    if ds.len() == 0 {
        s
    } else {
        let prev = deliver_all(s, ds.drop_last());
        deliver_spec(prev, ds.last().0, ds.last().1)
    }
}

/// The items of generation `g` among `ds`, in order.
pub open spec fn items_of<T>(ds: Seq<(u64, T)>, g: u64) -> Seq<T>
    decreases ds.len(),
{
    if ds.len() == 0 {
        Seq::empty()
    } else {
        let rest = items_of(ds.drop_last(), g);
        if ds.last().0 == g {
            rest.push(ds.last().1)
        } else {
            rest
        }
    }
}

/// The state after a query change from `s`.
pub open spec fn requery_spec<T>(s: RequeryView<T>) -> RequeryView<T> {
    RequeryView {
        phase: Phase::Running(s.next_generation),
        subscribed: Some(s.next_generation),
        next_generation: (s.next_generation + 1) as u64,
        visible: Seq::empty(),
    }
}

impl<T> Requery<T> {
    /// An engine before the first query: nothing runs and nothing is shown.
    pub fn new() -> (r: Requery<T>)
        ensures
            r@.phase == Phase::Idle,
            r@.subscribed is None,
            r@.next_generation == 0,
            r@.visible.len() == 0,
            requery_wf(r@),
    {
        Requery { phase: Phase::Idle, subscribed: None, next_generation: 0, visible: Vec::new() }
    }

    /// The query text changed: the running generation, if any, is to be
    /// interrupted, and a new one starts. The consumer switches to the new
    /// generation and drops what it showed in the same step, so no item of an
    /// older generation can be shown afterwards.
    pub fn query_changed(&mut self) -> (r: Requeried)
        requires
            old(self)@.phase != Phase::Terminal,
            old(self)@.next_generation < u64::MAX,
        ensures
            final(self)@ == requery_spec(old(self)@),
            requery_wf(final(self)@),
            r.start == old(self)@.next_generation,
            r.interrupt == (match old(self)@.phase {
                Phase::Running(g) => Some(g),
                _ => None,
            }),
    {
        let interrupt = match self.phase {
            Phase::Running(g) => Some(g),
            _ => None,
        };
        let g = self.next_generation;
        self.phase = Phase::Running(g);
        self.subscribed = Some(g);
        self.next_generation = g + 1;
        self.visible = Vec::new();
        Requeried { interrupt, start: g }
    }

    /// An item of generation `g` arrived.
    pub fn deliver(&mut self, g: u64, item: T)
        ensures
            final(self)@ == deliver_spec(old(self)@, g, item),
            requery_wf(old(self)@) ==> requery_wf(final(self)@),
    {
        if self.subscribed == Some(g) {
            self.visible.push(item);
        }
    }

    /// The worker of generation `g` ran out of items without being interrupted.
    pub fn worker_finished(&mut self, g: u64)
        ensures
            old(self)@.phase == Phase::Running(g) ==> final(self)@ == (RequeryView {
                phase: Phase::Idle,
                ..old(self)@
            }),
            old(self)@.phase != Phase::Running(g) ==> final(self)@ == old(self)@,
            requery_wf(old(self)@) ==> requery_wf(final(self)@),
    {
        if self.phase == Phase::Running(g) {
            self.phase = Phase::Idle;
        }
    }

    /// The session ended: the running generation, if any, is to be interrupted.
    /// Nothing waits for its worker, whose later sends fail once the consumer is gone.
    pub fn end_session(&mut self) -> (r: Option<u64>)
        ensures
            r == (match old(self)@.phase {
                Phase::Running(g) => Some(g),
                _ => None,
            }),
            final(self)@ == (RequeryView { phase: Phase::Terminal, ..old(self)@ }),
            requery_wf(old(self)@) ==> requery_wf(final(self)@),
    {
        let r = match self.phase {
            Phase::Running(g) => Some(g),
            _ => None,
        };
        self.phase = Phase::Terminal;
        r
    }
}

/// Delivering items leaves the shown items as they were, followed by the items of
/// the subscribed generation, in order.
pub proof fn lemma_deliver_all<T>(s: RequeryView<T>, ds: Seq<(u64, T)>)
    ensures
        deliver_all(s, ds) == (RequeryView {
            visible: s.visible + (match s.subscribed {
                Some(g) => items_of(ds, g),
                None => Seq::empty(),
            }),
            ..s
        }),
    decreases ds.len(),
{
    if ds.len() == 0 {
        assert(s.visible + Seq::<T>::empty() =~= s.visible);
        if let Some(g) = s.subscribed {
            assert(items_of(ds, g) =~= Seq::<T>::empty());
        }
    } else {
        lemma_deliver_all(s, ds.drop_last());
        if let Some(g) = s.subscribed {
            let prev = items_of(ds.drop_last(), g);
            if ds.last().0 == g {
                assert(s.visible + prev.push(ds.last().1) =~= (s.visible + prev).push(ds.last().1));
            }
        }
    }
}

/// After a query change, whatever items then arrive, from any mix of old and new
/// generations, the consumer shows exactly the new generation's items, in the order
/// they arrived.
pub proof fn lemma_requery_shows_only_new_generation<T>(s: RequeryView<T>, ds: Seq<(u64, T)>)
    ensures
        deliver_all(requery_spec(s), ds).visible == items_of(ds, s.next_generation),
{
    lemma_deliver_all(requery_spec(s), ds);
    assert(Seq::<T>::empty() + items_of(ds, s.next_generation) =~= items_of(ds, s.next_generation));
}

/// After a query change, items that arrive from older generations are never shown.
pub proof fn lemma_old_generations_never_shown<T>(s: RequeryView<T>, ds: Seq<(u64, T)>)
    requires
        forall|i: int| 0 <= i < ds.len() ==> (#[trigger] ds[i]).0 < s.next_generation,
    ensures
        deliver_all(requery_spec(s), ds).visible.len() == 0,
{
    lemma_requery_shows_only_new_generation(s, ds);
    lemma_items_of_other(ds, s.next_generation);
}

proof fn lemma_items_of_other<T>(ds: Seq<(u64, T)>, h: u64)
    requires
        forall|i: int| 0 <= i < ds.len() ==> (#[trigger] ds[i]).0 != h,
    ensures
        items_of(ds, h).len() == 0,
    decreases ds.len(),
{
    if ds.len() > 0 {
        assert forall|i: int| 0 <= i < ds.drop_last().len() implies (
        #[trigger] ds.drop_last()[i]).0 != h by {
            assert(ds.drop_last()[i] == ds[i]);
        }
        lemma_items_of_other(ds.drop_last(), h);
        assert(ds.last() == ds[ds.len() - 1]);
    }
}

} // verus!
