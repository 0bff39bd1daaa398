//! Acknowledgement of sent messages, as a sink with requests in flight sees it.
//!
//! A sink numbers its messages 0, 1, 2, ... in the order in which it sends them. Requests finish
//! in any order. A sink either acknowledges a message only once all the messages before it have
//! finished ([`OrderedAcks`]), or each message on its own ([`IndependentAcks`]).

use vstd::prelude::*;

verus! {

/// What a poll of the requests in flight gives.
#[derive(Clone, Copy, Debug, PartialEq, Eq)]
pub enum Polled {
    /// Requests are in flight, and none of them has finished.
    NotReady,
    /// No request is in flight.
    Drained,
    /// The request of the message with this sequence number has succeeded.
    Finished(usize),
    /// A request has failed. Its sequence number is lost with it.
    Failed,
}

/// What a sink does about one [`Polled`]. The first two end the polling, after the others it goes
/// on.
#[derive(Clone, Copy, Debug, PartialEq, Eq)]
pub enum PollStep {
    /// Stop: the sink waits for requests in flight.
    NotReady,
    /// Stop: all requests are done.
    Ready,
    /// Acknowledge this many messages upstream and poll again.
    Ack(usize),
    /// Report that the message was acknowledged before and poll again.
    AlreadyPublished,
    /// Report the failure and poll again.
    Failed,
}

impl PollStep {
    /// The number of messages that the step acknowledges.
    pub open spec fn acked(self) -> int {
        match self {
            PollStep::Ack(count) => count as int,
            _ => 0,
        }
    }
}

/// Only an acknowledgement acknowledges messages, and exactly as many as it says.
pub proof fn law_step_acknowledges_what_it_says(count: usize)
    ensures
        PollStep::Ack(count).acked() == count,
        PollStep::NotReady.acked() == 0,
        PollStep::Ready.acked() == 0,
        PollStep::AlreadyPublished.acked() == 0,
        PollStep::Failed.acked() == 0,
{
}

/// One thing that happens to a sink: it sends a message, or it polls its requests.
pub enum Happening {
    Sent,
    Polled(Polled),
}

/// The happenings of `trace` include the success of message `seqno`.
pub open spec fn finishes(trace: Seq<Happening>, seqno: usize) -> bool {
    exists|i: int|
        0 <= i < trace.len() && #[trigger] trace[i] == Happening::Polled(Polled::Finished(seqno))
}

/// The number of messages that `trace` sends.
pub open spec fn sent_count(trace: Seq<Happening>) -> nat
    decreases trace.len(),
{
    if trace.len() == 0 {
        0
    } else {
        sent_count(trace.drop_last()) + if trace.last() is Sent {
            1nat
        } else {
            0nat
        }
    }
}

/// The happenings of `trace` can occur to a sink that starts with nothing sent: sequence numbers
/// never run out, and only a message that was sent finishes.
pub open spec fn admissible(trace: Seq<Happening>) -> bool
    decreases trace.len(),
{
    trace.len() > 0 ==> {
        &&& admissible(trace.drop_last())
        &&& match trace.last() {
            Happening::Sent => sent_count(trace.drop_last()) < usize::MAX,
            Happening::Polled(Polled::Finished(seqno)) => seqno < sent_count(trace.drop_last()),
            Happening::Polled(_) => true,
        }
    }
}

proof fn lemma_finishes_last(trace: Seq<Happening>, seqno: usize)
    requires
        trace.len() > 0,
    ensures
        finishes(trace, seqno) <==> (finishes(trace.drop_last(), seqno) || trace.last()
            == Happening::Polled(Polled::Finished(seqno))),
{
    let init = trace.drop_last();
    if finishes(init, seqno) {
        let i = choose|i: int|
            0 <= i < init.len() && #[trigger] init[i] == Happening::Polled(
                Polled::Finished(seqno),
            );
        assert(trace[i] == init[i]);
    }
    if finishes(trace, seqno) {
        let i = choose|i: int|
            0 <= i < trace.len() && #[trigger] trace[i] == Happening::Polled(
                Polled::Finished(seqno),
            );
        if i < init.len() {
            assert(init[i] == trace[i]);
        }
    }
    if trace.last() == Happening::Polled(Polled::Finished(seqno)) {
        assert(trace[trace.len() - 1] == trace.last());
    }
}

// Acknowledgement in the order of sending

/// `gap` is the first number from `from` on that is not in `done`.
pub open spec fn is_first_gap(done: Set<usize>, from: usize, gap: usize) -> bool {
    &&& from <= gap
    &&& forall|i: usize| from <= i < gap ==> #[trigger] done.contains(i)
    &&& !done.contains(gap)
}

/// The first number from `from` on that is not in `done`.
pub open spec fn first_gap(done: Set<usize>, from: usize) -> usize {
    choose|gap: usize| is_first_gap(done, from, gap)
}

/// There is at most one first gap.
pub proof fn lemma_first_gap_unique(done: Set<usize>, from: usize, a: usize, b: usize)
    requires
        is_first_gap(done, from, a),
        is_first_gap(done, from, b),
    ensures
        a == b,
{
    if a < b {
        assert(done.contains(a));
    } else if b < a {
        assert(done.contains(b));
    }
}

/// A set without `bound` has a first gap no greater than `bound`.
pub proof fn lemma_first_gap_exists(done: Set<usize>, from: usize, bound: usize)
    requires
        from <= bound,
        !done.contains(bound),
    ensures
        is_first_gap(done, from, first_gap(done, from)),
        from <= first_gap(done, from) <= bound,
    decreases bound - from,
{
    if done.contains(from) {
        let next = (from + 1) as usize;
        lemma_first_gap_exists(done, next, bound);
        let gap = first_gap(done, next);
        assert(is_first_gap(done, from, gap));
        lemma_first_gap_unique(done, from, gap, first_gap(done, from));
    } else {
        assert(is_first_gap(done, from, from));
        lemma_first_gap_unique(done, from, from, first_gap(done, from));
    }
}

/// What a sink knows that acknowledges messages in the order in which it sent them.
#[verifier::ext_equal]
pub struct OrderedAcks {
    /// The number of messages sent: the sequence number of the next one.
    pub head: usize,
    /// The number of messages acknowledged: the first sequence number that is not.
    pub tail: usize,
    /// Messages that have finished and wait for one before them.
    pub pending: Set<usize>,
}

impl OrderedAcks {
    /// Nothing sent yet.
    pub open spec fn initial() -> Self {
        OrderedAcks { head: 0, tail: 0, pending: Set::empty() }
    }

    /// No more is acknowledged than was sent, only what was sent has finished, and the message to
    /// acknowledge next has not.
    pub open spec fn wf(self) -> bool {
        &&& self.tail <= self.head
        &&& forall|s: usize| #[trigger] self.pending.contains(s) ==> s < self.head
        &&& !self.pending.contains(self.tail)
    }

    /// The state once one more message is sent.
    pub open spec fn sent(self) -> Self {
        OrderedAcks { head: (self.head + 1) as usize, ..self }
    }

    /// The state once message `seqno` has finished: everything up to the first message that has
    /// not finished is acknowledged, and no longer pending.
    pub open spec fn finished(self, seqno: usize) -> Self {
        let done = self.pending.insert(seqno);
        let gap = first_gap(done, self.tail);
        OrderedAcks {
            tail: gap,
            pending: done.filter(|s: usize| !(self.tail <= s < gap)),
            ..self
        }
    }

    /// The state after one happening.
    pub open spec fn after(self, happening: Happening) -> Self {
        match happening {
            Happening::Sent => self.sent(),
            Happening::Polled(Polled::Finished(seqno)) => self.finished(seqno),
            Happening::Polled(_) => self,
        }
    }

    /// The number of messages that one happening acknowledges.
    pub open spec fn acks(self, happening: Happening) -> int {
        self.after(happening).tail - self.tail
    }

    /// The state of a sink after all the happenings of `trace`.
    pub open spec fn run(trace: Seq<Happening>) -> Self
        decreases trace.len(),
    {
        if trace.len() == 0 {
            Self::initial()
        } else {
            Self::run(trace.drop_last()).after(trace.last())
        }
    }

    /// The number of messages that the happenings of `trace` acknowledge, one after the other.
    pub open spec fn total_acks(trace: Seq<Happening>) -> int
        decreases trace.len(),
    {
        if trace.len() == 0 {
            0
        } else {
            Self::total_acks(trace.drop_last()) + Self::run(trace.drop_last()).acks(trace.last())
        }
    }
}

/// Finishing a message that was sent keeps the state well formed and acknowledges no message that
/// was not sent.
pub proof fn lemma_ordered_finished(state: OrderedAcks, seqno: usize)
    requires
        state.wf(),
        seqno < state.head,
    ensures
        state.finished(seqno).wf(),
        is_first_gap(
            state.pending.insert(seqno),
            state.tail,
            first_gap(state.pending.insert(seqno), state.tail),
        ),
{
    let done = state.pending.insert(seqno);
    assert(!done.contains(state.head));
    lemma_first_gap_exists(done, state.tail, state.head);
}

/// At any time the messages that a sink with ordered acknowledgements has acknowledged are the
/// longest run of messages, from the first on, that have all finished; what else has finished is
/// pending. This holds in whatever order requests finish.
pub proof fn law_ordered_acks_are_longest_finished_prefix(trace: Seq<Happening>)
    requires
        admissible(trace),
    ensures
        OrderedAcks::run(trace).wf(),
        OrderedAcks::run(trace).head == sent_count(trace),
        OrderedAcks::total_acks(trace) == OrderedAcks::run(trace).tail,
        forall|s: usize| s < OrderedAcks::run(trace).tail ==> #[trigger] finishes(trace, s),
        !finishes(trace, OrderedAcks::run(trace).tail),
        forall|s: usize| #[trigger]
            finishes(trace, s) <==> (s < OrderedAcks::run(trace).tail || OrderedAcks::run(
                trace,
            ).pending.contains(s)),
    decreases trace.len(),
{
    if trace.len() > 0 {
        let init = trace.drop_last();
        law_ordered_acks_are_longest_finished_prefix(init);
        let before = OrderedAcks::run(init);
        let now = OrderedAcks::run(trace);
        assert forall|s: usize| #[trigger] finishes(trace, s) <==> (s < now.tail
            || now.pending.contains(s)) by {
            lemma_finishes_last(trace, s);
            assert(finishes(init, s) <==> (s < before.tail || before.pending.contains(s)));
            match trace.last() {
                Happening::Polled(Polled::Finished(seqno)) => {
                    lemma_ordered_finished(before, seqno);
                    let done = before.pending.insert(seqno);
                    if before.tail <= s < now.tail {
                        assert(done.contains(s));
                    }
                },
                _ => {},
            }
        }
        match trace.last() {
            Happening::Polled(Polled::Finished(seqno)) => {
                lemma_ordered_finished(before, seqno);
            },
            _ => {},
        }
    }
}

/// Once every message that was sent has finished, a sink with ordered acknowledgements has
/// acknowledged exactly as many messages as it sent, and nothing waits to be acknowledged.
pub proof fn law_ordered_acks_complete(trace: Seq<Happening>)
    requires
        admissible(trace),
        forall|s: usize| s < sent_count(trace) ==> #[trigger] finishes(trace, s),
    ensures
        OrderedAcks::total_acks(trace) == sent_count(trace),
        forall|s: usize|
            s >= OrderedAcks::run(trace).tail ==> !OrderedAcks::run(trace).pending.contains(s),
{
    law_ordered_acks_are_longest_finished_prefix(trace);
    let tail = OrderedAcks::run(trace).tail;
    if tail < sent_count(trace) {
        assert(finishes(trace, tail));
    }
}

/// A message that never finishes holds back every later one: a sink with ordered
/// acknowledgements never acknowledges more messages than were sent before it.
pub proof fn law_ordered_acks_stop_at_unfinished(trace: Seq<Happening>, seqno: usize)
    requires
        admissible(trace),
        !finishes(trace, seqno),
    ensures
        OrderedAcks::total_acks(trace) <= seqno,
{
    law_ordered_acks_are_longest_finished_prefix(trace);
    if OrderedAcks::run(trace).tail > seqno {
        assert(finishes(trace, seqno));
    }
}

// Acknowledgement of each message on its own

/// What a sink knows that acknowledges each message when it finishes.
#[verifier::ext_equal]
pub struct IndependentAcks {
    /// The number of messages sent: the sequence number of the next one.
    pub next: usize,
    /// Messages that were sent and have not finished.
    pub pending: Set<usize>,
}

impl IndependentAcks {
    /// Nothing sent yet.
    pub open spec fn initial() -> Self {
        IndependentAcks { next: 0, pending: Set::empty() }
    }

    /// Only what was sent is pending.
    pub open spec fn wf(self) -> bool {
        forall|s: usize| #[trigger] self.pending.contains(s) ==> s < self.next
    }

    /// The state once one more message is sent.
    pub open spec fn sent(self) -> Self {
        IndependentAcks {
            next: (self.next + 1) as usize,
            pending: self.pending.insert(self.next),
        }
    }

    /// The state once message `seqno` has finished.
    pub open spec fn finished(self, seqno: usize) -> Self {
        IndependentAcks { pending: self.pending.remove(seqno), ..self }
    }

    /// The state after one happening.
    pub open spec fn after(self, happening: Happening) -> Self {
        match happening {
            Happening::Sent => self.sent(),
            Happening::Polled(Polled::Finished(seqno)) => self.finished(seqno),
            Happening::Polled(_) => self,
        }
    }

    /// The number of messages that one happening acknowledges: one when a pending message
    /// finishes.
    pub open spec fn acks(self, happening: Happening) -> int {
        match happening {
            Happening::Polled(Polled::Finished(seqno)) => if self.pending.contains(seqno) {
                1
            } else {
                0
            },
            _ => 0,
        }
    }

    /// The state of a sink after all the happenings of `trace`.
    pub open spec fn run(trace: Seq<Happening>) -> Self
        decreases trace.len(),
    {
        if trace.len() == 0 {
            Self::initial()
        } else {
            Self::run(trace.drop_last()).after(trace.last())
        }
    }

    /// The number of messages that the happenings of `trace` acknowledge, one after the other.
    pub open spec fn total_acks(trace: Seq<Happening>) -> int
        decreases trace.len(),
    {
        if trace.len() == 0 {
            0
        } else {
            Self::total_acks(trace.drop_last()) + Self::run(trace.drop_last()).acks(trace.last())
        }
    }
}

/// Sending a message and finishing one keep the state well formed.
pub proof fn lemma_independent_wf(state: IndependentAcks, seqno: usize)
    requires
        state.wf(),
    ensures
        state.next < usize::MAX ==> state.sent().wf(),
        state.finished(seqno).wf(),
{
}

/// At any time each message that a sink with independent acknowledgements has sent is either
/// acknowledged once or pending, and pending are those that have not finished.
pub proof fn law_independent_acks_count_each_message_once(trace: Seq<Happening>)
    requires
        admissible(trace),
    ensures
        IndependentAcks::run(trace).wf(),
        IndependentAcks::run(trace).next == sent_count(trace),
        IndependentAcks::run(trace).pending.finite(),
        IndependentAcks::total_acks(trace) + IndependentAcks::run(trace).pending.len()
            == sent_count(trace),
        forall|s: usize| #[trigger]
            IndependentAcks::run(trace).pending.contains(s) <==> (s < sent_count(trace)
                && !finishes(trace, s)),
    decreases trace.len(),
{
    if trace.len() > 0 {
        let init = trace.drop_last();
        law_independent_acks_count_each_message_once(init);
        let before = IndependentAcks::run(init);
        let now = IndependentAcks::run(trace);
        assert forall|s: usize| #[trigger] now.pending.contains(s) <==> (s < sent_count(trace)
            && !finishes(trace, s)) by {
            lemma_finishes_last(trace, s);
            assert(before.pending.contains(s) <==> (s < sent_count(init) && !finishes(init, s)));
            if s >= sent_count(init) {
                lemma_only_sent_finishes(init, s);
            }
        }
    }
}

/// Only a message that was sent finishes.
pub proof fn lemma_only_sent_finishes(trace: Seq<Happening>, seqno: usize)
    requires
        admissible(trace),
        seqno >= sent_count(trace),
    ensures
        !finishes(trace, seqno),
    decreases trace.len(),
{
    if trace.len() > 0 {
        lemma_finishes_last(trace, seqno);
        lemma_only_sent_finishes(trace.drop_last(), seqno);
    }
}

/// Once every message that was sent has finished, a sink with independent acknowledgements has
/// acknowledged exactly as many messages as it sent, and none is pending.
pub proof fn law_independent_acks_complete(trace: Seq<Happening>)
    requires
        admissible(trace),
        forall|s: usize| s < sent_count(trace) ==> #[trigger] finishes(trace, s),
    ensures
        IndependentAcks::total_acks(trace) == sent_count(trace),
        IndependentAcks::run(trace).pending == Set::<usize>::empty(),
{
    law_independent_acks_count_each_message_once(trace);
    assert(IndependentAcks::run(trace).pending =~= Set::<usize>::empty());
}

/// A message that finishes a second time is not acknowledged again and changes nothing.
pub proof fn law_independent_acks_never_repeat(state: IndependentAcks, seqno: usize)
    ensures
        state.finished(seqno).acks(Happening::Polled(Polled::Finished(seqno))) == 0,
        state.finished(seqno).finished(seqno) == state.finished(seqno),
{
    assert(state.finished(seqno).finished(seqno) =~= state.finished(seqno));
}

// Requests in flight

/// One thing that happens to a sink, with what it means for the requests in flight. Unlike a
/// [`Happening`], it tells which request has failed.
pub enum Flight {
    /// A message is sent: its request is in flight.
    Sent,
    /// The request of this message succeeds.
    Succeeded(usize),
    /// The request of this message fails.
    Lost(usize),
    /// Requests are in flight, and none of them has finished.
    Waiting,
    /// No request is in flight.
    Drained,
}

impl Flight {
    /// What the sink sees of it.
    pub open spec fn happening(self) -> Happening {
        match self {
            Flight::Sent => Happening::Sent,
            Flight::Succeeded(seqno) => Happening::Polled(Polled::Finished(seqno)),
            Flight::Lost(_) => Happening::Polled(Polled::Failed),
            Flight::Waiting => Happening::Polled(Polled::NotReady),
            Flight::Drained => Happening::Polled(Polled::Drained),
        }
    }
}

/// What the sink sees of `flights`.
pub open spec fn seen(flights: Seq<Flight>) -> Seq<Happening> {
    flights.map_values(|flight: Flight| flight.happening())
}

/// The messages whose requests are in flight after `flights`.
pub open spec fn in_flight(flights: Seq<Flight>) -> Set<usize>
    decreases flights.len(),
{
    if flights.len() == 0 {
        Set::empty()
    } else {
        let before = in_flight(flights.drop_last());
        match flights.last() {
            Flight::Sent => before.insert(sent_count(seen(flights.drop_last())) as usize),
            Flight::Succeeded(seqno) => before.remove(seqno),
            Flight::Lost(seqno) => before.remove(seqno),
            _ => before,
        }
    }
}

/// The messages whose requests have failed in `flights`.
pub open spec fn lost(flights: Seq<Flight>) -> Set<usize>
    decreases flights.len(),
{
    if flights.len() == 0 {
        Set::empty()
    } else {
        let before = lost(flights.drop_last());
        match flights.last() {
            Flight::Lost(seqno) => before.insert(seqno),
            _ => before,
        }
    }
}

/// `flights` can occur to a sink that starts with nothing sent: sequence numbers never run out, and
/// each request finishes at most once, by success or by failure.
pub open spec fn possible(flights: Seq<Flight>) -> bool
    decreases flights.len(),
{
    flights.len() > 0 ==> {
        let before = in_flight(flights.drop_last());
        &&& possible(flights.drop_last())
        &&& match flights.last() {
            Flight::Sent => sent_count(seen(flights.drop_last())) < usize::MAX,
            Flight::Succeeded(seqno) => before.contains(seqno),
            Flight::Lost(seqno) => before.contains(seqno),
            Flight::Waiting => before != Set::<usize>::empty(),
            Flight::Drained => before == Set::<usize>::empty(),
        }
    }
}

proof fn lemma_seen_last(flights: Seq<Flight>)
    requires
        flights.len() > 0,
    ensures
        seen(flights).drop_last() == seen(flights.drop_last()),
        seen(flights).last() == flights.last().happening(),
{
    assert(seen(flights).drop_last() =~= seen(flights.drop_last()));
}

/// Only what was sent is in flight or lost, and what the sink sees can occur to it.
proof fn lemma_possible_is_admissible(flights: Seq<Flight>)
    requires
        possible(flights),
    ensures
        admissible(seen(flights)),
        in_flight(flights).finite(),
        lost(flights).finite(),
        forall|s: usize| #[trigger]
            in_flight(flights).contains(s) ==> s < sent_count(seen(flights)) && !lost(
                flights,
            ).contains(s),
        forall|s: usize| #[trigger] lost(flights).contains(s) ==> s < sent_count(seen(flights)),
    decreases flights.len(),
{
    if flights.len() > 0 {
        lemma_seen_last(flights);
        lemma_possible_is_admissible(flights.drop_last());
    }
}

proof fn lemma_filter_len(done: Set<usize>, from: usize, to: usize)
    requires
        done.finite(),
        from <= to,
        forall|s: usize| from <= s < to ==> #[trigger] done.contains(s),
    ensures
        done.filter(|s: usize| !(from <= s < to)).finite(),
        done.filter(|s: usize| !(from <= s < to)).len() == done.len() - (to - from),
    decreases to - from,
{
    let kept = done.filter(|s: usize| !(from <= s < to));
    if from == to {
        assert(kept =~= done);
    } else {
        let last = (to - 1) as usize;
        lemma_filter_len(done, from, last);
        let more = done.filter(|s: usize| !(from <= s < last));
        assert(done.contains(last));
        assert(kept =~= more.remove(last));
    }
}

/// Each message from the first unacknowledged one on is in flight, waits for one before it, or is
/// gone, and only one of these. What waits lies strictly between the first unacknowledged message
/// and the next to be sent.
pub open spec fn accounts(state: OrderedAcks, flying: Set<usize>, gone: Set<usize>) -> bool {
    &&& state.tail <= state.head
    &&& flying.finite() && state.pending.finite() && gone.finite()
    &&& forall|s: usize| #[trigger] state.pending.contains(s) ==> state.tail < s < state.head
    &&& forall|s: usize| #[trigger] flying.contains(s) ==> state.tail <= s < state.head
    &&& forall|s: usize| #[trigger] gone.contains(s) ==> state.tail <= s < state.head
    &&& forall|s: usize|
        state.tail <= s < state.head ==> flying.contains(s) || #[trigger] state.pending.contains(s)
            || gone.contains(s)
    &&& flying.disjoint(state.pending)
    &&& flying.disjoint(gone)
    &&& gone.disjoint(state.pending)
    &&& flying.len() + state.pending.len() + gone.len() == state.head - state.tail
}

proof fn lemma_accounts_sent(state: OrderedAcks, flying: Set<usize>, gone: Set<usize>)
    requires
        accounts(state, flying, gone),
        state.head < usize::MAX,
    ensures
        accounts(state.sent(), flying.insert(state.head), gone),
{
    assert(!state.pending.contains(state.head));
    assert(!flying.contains(state.head));
    assert(!gone.contains(state.head));
}

proof fn lemma_accounts_finished(
    state: OrderedAcks,
    flying: Set<usize>,
    gone: Set<usize>,
    seqno: usize,
)
    requires
        accounts(state, flying, gone),
        flying.contains(seqno),
    ensures
        accounts(state.finished(seqno), flying.remove(seqno), gone),
{
    assert(!state.pending.contains(state.tail));
    lemma_ordered_finished(state, seqno);
    let done = state.pending.insert(seqno);
    let now = state.finished(seqno);
    assert(!state.pending.contains(seqno));
    lemma_filter_len(done, state.tail, now.tail);
    assert(now.pending =~= done.filter(|s: usize| !(state.tail <= s < now.tail)));
    assert forall|s: usize| #[trigger] flying.remove(seqno).contains(s) implies now.tail <= s
        < now.head by {
        assert(!state.pending.contains(s) && s != seqno);
        assert(!done.contains(s));
    }
    assert forall|s: usize| #[trigger] gone.contains(s) implies now.tail <= s < now.head by {
        assert(!state.pending.contains(s) && !flying.contains(s));
        assert(!done.contains(s));
    }
    assert forall|s: usize| now.tail <= s < now.head implies flying.remove(seqno).contains(s)
        || #[trigger] now.pending.contains(s) || gone.contains(s) by {
        assert(flying.contains(s) || state.pending.contains(s) || gone.contains(s));
    }
    assert forall|s: usize| #[trigger] now.pending.contains(s) implies now.tail < s < now.head by {
        assert(done.contains(s));
        assert(s != now.tail);
    }
}

proof fn lemma_accounts_lost(
    state: OrderedAcks,
    flying: Set<usize>,
    gone: Set<usize>,
    seqno: usize,
)
    requires
        accounts(state, flying, gone),
        flying.contains(seqno),
    ensures
        accounts(state, flying.remove(seqno), gone.insert(seqno)),
{
    assert(!state.pending.contains(seqno));
    assert(!gone.contains(seqno));
    assert forall|s: usize| state.tail <= s < state.head implies flying.remove(seqno).contains(s)
        || #[trigger] state.pending.contains(s) || gone.insert(seqno).contains(s) by {
        assert(flying.contains(s) || state.pending.contains(s) || gone.contains(s));
    }
}

/// Whatever happens to the requests of a sink with ordered acknowledgements, each message that it
/// has sent and not acknowledged is in flight, waits for one before it, or is lost, and only one of
/// these. So those in flight and those that wait are together no more than the messages sent and
/// not acknowledged, and as many where none is lost.
pub proof fn law_ordered_acks_account_for_every_message(flights: Seq<Flight>)
    requires
        possible(flights),
    ensures
        admissible(seen(flights)),
        accounts(OrderedAcks::run(seen(flights)), in_flight(flights), lost(flights)),
    decreases flights.len(),
{
    lemma_possible_is_admissible(flights);
    if flights.len() > 0 {
        let init = flights.drop_last();
        lemma_seen_last(flights);
        law_ordered_acks_account_for_every_message(init);
        law_ordered_acks_are_longest_finished_prefix(seen(init));
        let before = OrderedAcks::run(seen(init));
        match flights.last() {
            Flight::Sent => {
                lemma_accounts_sent(before, in_flight(init), lost(init));
            },
            Flight::Succeeded(seqno) => {
                lemma_accounts_finished(before, in_flight(init), lost(init), seqno);
            },
            Flight::Lost(seqno) => {
                lemma_accounts_lost(before, in_flight(init), lost(init), seqno);
            },
            _ => {},
        }
    }
}

/// When no request is in flight and none was lost, a sink with ordered acknowledgements has
/// acknowledged all that it sent, and nothing waits.
pub proof fn law_ordered_acks_drain(flights: Seq<Flight>)
    requires
        possible(flights),
        in_flight(flights) == Set::<usize>::empty(),
        lost(flights) == Set::<usize>::empty(),
    ensures
        OrderedAcks::total_acks(seen(flights)) == sent_count(seen(flights)),
        OrderedAcks::run(seen(flights)).pending == Set::<usize>::empty(),
{
    law_ordered_acks_account_for_every_message(flights);
    law_ordered_acks_are_longest_finished_prefix(seen(flights));
    let state = OrderedAcks::run(seen(flights));
    assert(!state.pending.contains(state.tail));
    assert(state.pending =~= Set::<usize>::empty());
}

/// Whatever happens to the requests of a sink with independent acknowledgements, its pending
/// messages are those in flight and those lost; all others it has acknowledged.
pub proof fn law_independent_pending_is_in_flight_or_lost(flights: Seq<Flight>)
    requires
        possible(flights),
    ensures
        admissible(seen(flights)),
        IndependentAcks::run(seen(flights)).pending == in_flight(flights).union(lost(flights)),
        in_flight(flights).disjoint(lost(flights)),
        IndependentAcks::total_acks(seen(flights)) + in_flight(flights).len() + lost(flights).len()
            == sent_count(seen(flights)),
    decreases flights.len(),
{
    lemma_possible_is_admissible(flights);
    law_independent_acks_count_each_message_once(seen(flights));
    vstd::set_lib::lemma_set_disjoint_lens(in_flight(flights), lost(flights));
    let now = IndependentAcks::run(seen(flights)).pending;
    if flights.len() > 0 {
        let init = flights.drop_last();
        lemma_seen_last(flights);
        lemma_possible_is_admissible(init);
        law_independent_pending_is_in_flight_or_lost(init);
        law_independent_acks_count_each_message_once(seen(init));
    }
    assert(now =~= in_flight(flights).union(lost(flights)));
}

} // verus!
