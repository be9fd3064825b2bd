//! The funnel: many producers send into one bounded channel, and one consumer drains it
//! until it is closed.

use crate::bench::{run_once, sample, size_at, wired, RunError, Wiring};
use crate::executor_shims::Executor;
use crate::mock::{Channel, ChannelView, Received, Sent};
use crate::result::{BenchResult, SampleCount};
use crate::script::{Action, Consumer, Producer, Script};
use crate::text::{decimal, decimal_of};
use vstd::prelude::*;

verus! {

/// The size of one funnel.
#[derive(Clone, Copy, Debug, PartialEq, Eq)]
pub struct FunnelPlan {
    /// How many producers there are.
    pub producers: usize,
    /// How many messages each producer sends.
    pub quota: u64,
    /// How many messages the channel holds.
    pub capacity: usize,
}

impl FunnelPlan {
    /// The channel has room for a message, and the messages can be counted in 64 bits and
    /// the sender handles in a `usize`.
    pub open spec fn wf(&self) -> bool {
        &&& self.capacity >= 1
        &&& self.producers < usize::MAX
        &&& self.producers * self.quota <= u64::MAX
    }

    /// How many messages the consumer is owed: the quota of every producer.
    pub open spec fn total_messages(&self) -> nat {
        (self.producers * self.quota) as nat
    }

    /// How many tasks take part: the producers and the consumer.
    pub open spec fn total_tasks(&self) -> nat {
        (self.producers + 1) as nat
    }

    /// Computes `wf`.
    pub fn is_valid(&self) -> (valid: bool)
        ensures
            valid == self.wf(),
    {
        self.capacity >= 1 && self.producers < usize::MAX && (self.producers as u64).checked_mul(
            self.quota,
        ).is_some()
    }

    /// Computes `total_messages`.
    pub fn messages(&self) -> (messages: u64)
        requires
            self.wf(),
        ensures
            messages == self.total_messages(),
    {
        (self.producers as u64) * self.quota
    }
}

/// How many sizes the funnel is measured at.
pub const FUNNEL_POINTS: usize = 7;

/// How many messages each producer sends when the funnel is measured.
pub const FUNNEL_QUOTA: u64 = 100_000;

/// How many messages the channel holds when the funnel is measured.
pub const FUNNEL_CAPACITY: usize = 100;

/// The sizes at which the funnel is measured, in the order in which they are run: one
/// producer at first and twice as many from each point to the next, with the same quota
/// and the same capacity throughout.
pub fn sweep() -> (plans: Vec<FunnelPlan>)
    ensures
        plans@.len() == FUNNEL_POINTS,
        forall|i: int|
            0 <= i < plans@.len() ==> {
                &&& (#[trigger] plans@[i]).wf()
                &&& plans@[i].producers == size_at(i as nat)
                &&& plans@[i].quota == FUNNEL_QUOTA
                &&& plans@[i].capacity == FUNNEL_CAPACITY
            },
{
    let mut plans: Vec<FunnelPlan> = Vec::new();
    let mut producers: usize = 1;
    while plans.len() < FUNNEL_POINTS
        invariant
            plans@.len() <= FUNNEL_POINTS,
            producers == size_at(plans@.len()),
            producers <= 64 || plans@.len() == FUNNEL_POINTS,
            1 <= producers <= 128,
            forall|i: int|
                0 <= i < plans@.len() ==> {
                    &&& (#[trigger] plans@[i]).wf()
                    &&& plans@[i].producers == size_at(i as nat)
                    &&& plans@[i].quota == FUNNEL_QUOTA
                    &&& plans@[i].capacity == FUNNEL_CAPACITY
                },
        decreases FUNNEL_POINTS - plans@.len(),
    {
        proof {
            reveal_with_fuel(size_at, 8);
        }
        let plan = FunnelPlan { producers, quota: FUNNEL_QUOTA, capacity: FUNNEL_CAPACITY };
        assert(plan.wf()) by (nonlinear_arith)
            requires
                plan.producers <= 64,
                plan.quota == 100_000,
                plan.capacity == 100,
        ;
        plans.push(plan);
        producers = 2 * producers;
    }
    plans
}

/// The label of the results of the funnel.
pub open spec fn label() -> Seq<char> {
    "funnel"@
}

/// The scripts of the producers of a funnel: one for each producer, each with the quota
/// of the plan before it and nothing sent yet.
pub fn scripts(plan: &FunnelPlan) -> (producers: Vec<Producer>)
    requires
        plan.wf(),
    ensures
        producers@.len() == plan.producers,
        forall|p: int|
            0 <= p < producers@.len() ==> {
                &&& (#[trigger] producers@[p]).wf()
                &&& producers@[p].quota() == plan.quota
                &&& producers@[p].sent_so_far() == 0
            },
{
    let mut producers: Vec<Producer> = Vec::new();
    while producers.len() < plan.producers
        invariant
            producers@.len() <= plan.producers,
            forall|p: int|
                0 <= p < producers@.len() ==> {
                    &&& (#[trigger] producers@[p]).wf()
                    &&& producers@[p].quota() == plan.quota
                    &&& producers@[p].sent_so_far() == 0
                },
        decreases plan.producers - producers@.len(),
    {
        producers.push(Producer::new(plan.quota));
    }
    producers
}

/// Measures a funnel of one size, once for each sample, every time on a runtime and over
/// a channel that are made for that sample alone. The wiring is handed the capacity of the
/// plan, the scripts that `scripts` gives and a consumer that has seen nothing; what it
/// hands back is held to the number of tasks with `wired`, timed with `run_once` for the
/// messages of the plan, and turned into a sample with `sample`. The result is labelled
/// `funnel`, carries the number of producers in decimal as its parameter, and holds one
/// sample for each run in the order of the runs; where the plan has messages, no sample
/// is zero. The first run that fails ends the measurement with its error.
pub fn measure<E: Executor, W: Wiring>(wiring: &W, plan: &FunnelPlan, samples: SampleCount) -> (r:
    Result<BenchResult, RunError>)
    requires
        plan.wf(),
    ensures
        match r {
            Ok(result) => {
                &&& result@.label == label()
                &&& result@.parameter == decimal_of(plan.producers as nat)
                &&& result@.throughput.len() == samples@
                &&& plan.total_messages() > 0 ==> forall|i: int|
                    0 <= i < result@.throughput.len() ==> #[trigger] result@.throughput[i] >= 1
            },
            Err(RunError::Miswired { expected, found }) => expected == plan.total_tasks()
                && found != expected,
            Err(RunError::Failed(failure)) => failure.task < plan.total_tasks(),
            Err(_) => true,
        },
{
    let wanted = samples.get();
    let messages = plan.messages();
    let mut throughput: Vec<u64> = Vec::new();
    let mut taken: u32 = 0;
    while taken < wanted
        invariant
            plan.wf(),
            messages == plan.total_messages(),
            taken <= wanted,
            throughput@.len() == taken,
            messages > 0 ==> forall|i: int|
                0 <= i < throughput@.len() ==> #[trigger] throughput@[i] >= 1,
        decreases wanted - taken,
    {
        let tasks = wiring.funnel(plan.capacity, scripts(plan), Consumer::new());
        match wired(plan.producers + 1, tasks.len()) {
            Ok(()) => {},
            Err(error) => {
                return Err(error);
            },
        }
        let timing = match run_once::<E, W::Job>(tasks, messages) {
            Ok(timing) => timing,
            Err(error) => {
                return Err(error);
            },
        };
        match sample(&timing) {
            Ok(rate) => {
                throughput.push(rate);
            },
            Err(error) => {
                return Err(error);
            },
        }
        taken = taken + 1;
    }
    Ok(BenchResult::new("funnel".to_owned(), decimal(plan.producers as u64), throughput))
}

/// What a producer has yet to send.
pub open spec fn owed(producer: Producer) -> nat {
    (producer.quota() - producer.sent_so_far()) as nat
}

/// What the producers have yet to send, all together.
pub open spec fn remaining(producers: Seq<Producer>) -> nat
    decreases producers.len(),
{
    if producers.len() == 0 {
        0
    } else {
        remaining(producers.drop_last()) + owed(producers.last())
    }
}

proof fn lemma_remaining_remove(producers: Seq<Producer>, at: int)
    requires
        0 <= at < producers.len(),
    ensures
        remaining(producers.remove(at)) + owed(producers[at]) == remaining(producers),
    decreases producers.len() - at,
{
    let shorter = producers.remove(at);
    if at == producers.len() - 1 {
        assert(shorter == producers.drop_last());
    } else {
        lemma_remaining_remove(producers.drop_last(), at);
        assert(shorter.drop_last() == producers.drop_last().remove(at));
        assert(shorter.last() == producers.last());
    }
}

/// A message on its way through a funnel: the producer that it is from, and its number
/// among the messages of that producer.
pub type Parcel = (usize, u64);

/// A funnel between two steps of its tasks, whoever schedules them: the scripts of the
/// producers, which of them still hold their sender handle, the channel, the script of the
/// consumer, and what the consumer has received, in the order in which it came.
pub struct FunnelState {
    pub producers: Seq<Producer>,
    pub holding: Seq<bool>,
    pub channel: ChannelView<Parcel>,
    pub consumer: Consumer,
    pub received: Seq<Parcel>,
}

/// The numbers of the messages of one producer among the given messages, in their order.
pub open spec fn numbers_from(parcels: Seq<Parcel>, producer: int) -> Seq<u64>
    decreases parcels.len(),
{
    if parcels.len() == 0 {
        Seq::empty()
    } else if parcels.last().0 == producer {
        numbers_from(parcels.drop_last(), producer).push(parcels.last().1)
    } else {
        numbers_from(parcels.drop_last(), producer)
    }
}

/// The numbers from zero up to a number, that number left out.
pub open spec fn counting(up_to: nat) -> Seq<u64> {
    Seq::new(up_to, |i: int| i as u64)
}

/// How many of the producers hold a sender handle.
pub open spec fn held(holding: Seq<bool>) -> nat
    decreases holding.len(),
{
    if holding.len() == 0 {
        0
    } else {
        held(holding.drop_last()) + (if holding.last() { 1nat } else { 0nat })
    }
}

impl FunnelState {
    /// The funnel before any task has made a step: nothing is sent, every producer holds
    /// a handle, and the harness has let go of its own.
    pub open spec fn starts(self, plan: FunnelPlan) -> bool {
        &&& self.producers.len() == plan.producers
        &&& self.holding.len() == plan.producers
        &&& forall|p: int|
            0 <= p < self.producers.len() ==> {
                &&& (#[trigger] self.producers[p]).wf()
                &&& self.producers[p].quota() == plan.quota
                &&& self.producers[p].sent_so_far() == 0
            }
        &&& forall|p: int| 0 <= p < self.holding.len() ==> #[trigger] self.holding[p]
        &&& self.channel == (ChannelView::<Parcel> {
            capacity: plan.capacity as nat,
            queue: Seq::empty(),
            senders: plan.producers as nat,
        })
        &&& self.consumer.wf()
        &&& self.consumer.is_open()
        &&& self.received == Seq::<Parcel>::empty()
    }

    /// Nothing but the producer at `p`, its handle and the channel differs between the two
    /// states.
    pub open spec fn differs_at(self, p: int, after: FunnelState) -> bool {
        &&& 0 <= p < self.producers.len()
        &&& self.holding.len() == self.producers.len()
        &&& after.producers.len() == self.producers.len()
        &&& after.holding.len() == self.holding.len()
        &&& forall|q: int|
            0 <= q < self.producers.len() && q != p ==> #[trigger] after.producers[q]
                == self.producers[q]
        &&& forall|q: int|
            0 <= q < self.holding.len() && q != p ==> #[trigger] after.holding[q]
                == self.holding[q]
        &&& after.consumer == self.consumer
        &&& after.received == self.received
    }

    /// The producer at `p` makes a step: it offers its next message under its own name,
    /// which the channel takes or does not take, or it has sent its quota, ends and lets go
    /// of its handle.
    pub open spec fn producer_steps(self, p: int, after: FunnelState) -> bool {
        &&& self.differs_at(p, after)
        &&& self.holding[p]
        &&& match self.producers[p].next() {
            Action::Send(message) => {
                &&& after.holding[p]
                &&& after.channel == self.channel.after_send((p as usize, message))
                &&& if self.channel.send_outcome((p as usize, message)) is Accepted {
                    &&& after.producers[p].quota() == self.producers[p].quota()
                    &&& after.producers[p].sent_so_far() == self.producers[p].sent_so_far() + 1
                } else {
                    after.producers[p] == self.producers[p]
                }
            },
            _ => {
                &&& !after.holding[p]
                &&& after.producers[p] == self.producers[p]
                &&& after.channel == (ChannelView {
                    senders: (self.channel.senders - 1) as nat,
                    ..self.channel
                })
            },
        }
    }

    /// The consumer makes a step: it asks the channel for a message, and gets one, or is
    /// suspended, or learns that the channel is closed and ends.
    pub open spec fn consumer_steps(self, after: FunnelState) -> bool {
        &&& self.consumer.is_open()
        &&& after.producers == self.producers
        &&& after.holding == self.holding
        &&& after.channel == self.channel.after_recv()
        &&& after.consumer.wf()
        &&& match self.channel.recv_outcome() {
            Received::Message(parcel) => after.received == self.received.push(parcel)
                && after.consumer.is_open(),
            Received::Suspended => after.received == self.received && after.consumer.is_open(),
            Received::Closed => after.received == self.received && !after.consumer.is_open(),
        }
    }

    /// Some task makes a step.
    #[verifier::opaque]
    pub open spec fn steps(self, after: FunnelState) -> bool {
        self.consumer_steps(after) || exists|p: int| self.producer_steps(p, after)
    }

    /// What holds of a funnel at all times: no message is lost or made up, the handles are
    /// those of the producers that have not ended, and a consumer that has ended has seen
    /// a channel that is closed and drained.
    #[verifier::opaque]
    pub open spec fn sound(self, plan: FunnelPlan) -> bool {
        &&& self.producers.len() == plan.producers
        &&& self.holding.len() == plan.producers
        &&& forall|p: int|
            0 <= p < self.producers.len() ==> {
                &&& (#[trigger] self.producers[p]).wf()
                &&& self.producers[p].quota() == plan.quota
            }
        &&& forall|p: int|
            0 <= p < self.holding.len() && !(#[trigger] self.holding[p]) ==> owed(
                self.producers[p],
            ) == 0
        &&& self.channel.wf()
        &&& self.channel.capacity == plan.capacity
        &&& self.channel.senders == held(self.holding)
        &&& self.received.len() + self.channel.queue.len() + remaining(self.producers)
            == plan.total_messages()
        &&& !self.consumer.is_open() ==> self.channel.queue.len() == 0 && self.channel.senders
            == 0
    }
}

impl FunnelState {
    /// What has left a producer has left it in the order of the numbers, each number once:
    /// the messages of each producer that are received or wait in the channel are, in
    /// this order, those with the numbers below what the producer has sent.
    #[verifier::opaque]
    pub open spec fn in_order(self) -> bool {
        forall|p: int|
            0 <= p < self.producers.len() ==> #[trigger] numbers_from(
                self.received + self.channel.queue,
                p,
            ) == counting(self.producers[p].sent_so_far())
    }
}

/// Whether the states are those of a funnel of the given size from its start on, each
/// reached from the one before it by a step of some task.
pub open spec fn is_run(plan: FunnelPlan, states: Seq<FunnelState>) -> bool {
    &&& states.len() >= 1
    &&& states[0].starts(plan)
    &&& forall|i: int| 1 <= i < states.len() ==> states[i - 1].steps(#[trigger] states[i])
}

proof fn lemma_remaining_at(producers: Seq<Producer>, after: Seq<Producer>, p: int)
    requires
        0 <= p < producers.len(),
        after.len() == producers.len(),
        forall|q: int| 0 <= q < producers.len() && q != p ==> #[trigger] after[q] == producers[q],
    ensures
        remaining(after) + owed(producers[p]) == remaining(producers) + owed(after[p]),
{
    lemma_remaining_remove(producers, p);
    lemma_remaining_remove(after, p);
    assert(producers.remove(p) =~= after.remove(p));
}

proof fn lemma_held_at(holding: Seq<bool>, after: Seq<bool>, p: int)
    requires
        0 <= p < holding.len(),
        after.len() == holding.len(),
        forall|q: int| 0 <= q < holding.len() && q != p ==> #[trigger] after[q] == holding[q],
    ensures
        held(after) + (if holding[p] { 1int } else { 0int }) == held(holding) + (if after[p] {
            1int
        } else {
            0int
        }),
    decreases holding.len(),
{
    if p == holding.len() - 1 {
        assert(holding.drop_last() =~= after.drop_last());
    } else {
        lemma_held_at(holding.drop_last(), after.drop_last(), p);
    }
}

proof fn lemma_none_held(holding: Seq<bool>)
    requires
        held(holding) == 0,
    ensures
        forall|p: int| 0 <= p < holding.len() ==> !#[trigger] holding[p],
    decreases holding.len(),
{
    if holding.len() > 0 {
        lemma_none_held(holding.drop_last());
        assert forall|p: int| 0 <= p < holding.len() implies !#[trigger] holding[p] by {
            if p < holding.len() - 1 {
                assert(holding.drop_last()[p] == holding[p]);
            }
        }
    }
}

proof fn lemma_nothing_owed(producers: Seq<Producer>)
    requires
        forall|p: int| 0 <= p < producers.len() ==> owed(#[trigger] producers[p]) == 0,
    ensures
        remaining(producers) == 0,
    decreases producers.len(),
{
    if producers.len() > 0 {
        assert forall|p: int| 0 <= p < producers.drop_last().len() implies owed(
            #[trigger] producers.drop_last()[p],
        ) == 0 by {
            assert(producers.drop_last()[p] == producers[p]);
        }
        lemma_nothing_owed(producers.drop_last());
    }
}

proof fn lemma_numbers_with(parcels: Seq<Parcel>, parcel: Parcel, producer: int)
    ensures
        numbers_from(parcels.push(parcel), producer) == if parcel.0 == producer {
            numbers_from(parcels, producer).push(parcel.1)
        } else {
            numbers_from(parcels, producer)
        },
{
    assert(parcels.push(parcel).drop_last() == parcels);
    assert(parcels.push(parcel).last() == parcel);
}

proof fn lemma_step_keeps_order(plan: FunnelPlan, before: FunnelState, after: FunnelState)
    requires
        plan.wf(),
        before.sound(plan),
        before.in_order(),
        before.steps(after),
    ensures
        after.in_order(),
{
    reveal(FunnelState::sound);
    reveal(FunnelState::steps);
    reveal(FunnelState::in_order);
    let old_all = before.received + before.channel.queue;
    let new_all = after.received + after.channel.queue;
    if before.consumer_steps(after) {
        assert(new_all =~= old_all);
    } else {
        let p = choose|p: int| before.producer_steps(p, after);
        assert forall|q: int| 0 <= q < after.producers.len() implies #[trigger] numbers_from(
            new_all,
            q,
        ) == counting(after.producers[q].sent_so_far()) by {
            if q != p {
                assert(after.producers[q] == before.producers[q]);
            }
            assert(numbers_from(old_all, q) == counting(before.producers[q].sent_so_far()));
            match before.producers[p].next() {
                Action::Send(message) => {
                    let parcel = (p as usize, message);
                    if before.channel.send_outcome(parcel) is Accepted {
                        assert(new_all =~= old_all.push(parcel));
                        lemma_numbers_with(old_all, parcel, q);
                        if q == p {
                            let sent = before.producers[p].sent_so_far();
                            assert(counting(sent).push(message) =~= counting(sent + 1));
                        }
                    } else {
                        assert(new_all =~= old_all);
                    }
                },
                _ => {
                    assert(new_all =~= old_all);
                },
            }
        }
    }
}

proof fn lemma_start_is_sound(plan: FunnelPlan, state: FunnelState)
    requires
        plan.wf(),
        state.starts(plan),
    ensures
        state.sound(plan),
        state.in_order(),
{
    assert(state.in_order()) by {
        reveal(FunnelState::in_order);
        assert(state.received + state.channel.queue =~= Seq::<Parcel>::empty());
        assert forall|p: int| 0 <= p < state.producers.len() implies #[trigger] numbers_from(
            state.received + state.channel.queue,
            p,
        ) == counting(state.producers[p].sent_so_far()) by {
            assert(counting(0) =~= Seq::<u64>::empty());
        }
    }
    reveal(FunnelState::sound);
    lemma_all_owed(state.producers, plan.quota as nat);
    lemma_all_held(state.holding);
}

proof fn lemma_all_owed(producers: Seq<Producer>, quota: nat)
    requires
        forall|p: int|
            0 <= p < producers.len() ==> (#[trigger] producers[p]).quota() == quota
                && producers[p].sent_so_far() == 0,
    ensures
        remaining(producers) == producers.len() * quota,
    decreases producers.len(),
{
    if producers.len() > 0 {
        assert forall|p: int| 0 <= p < producers.drop_last().len() implies (
        #[trigger] producers.drop_last()[p]).quota() == quota && producers.drop_last()[p].sent_so_far()
            == 0 by {
            assert(producers.drop_last()[p] == producers[p]);
        }
        lemma_all_owed(producers.drop_last(), quota);
        assert(producers.len() * quota == (producers.len() - 1) * quota + quota)
            by (nonlinear_arith);
    }
}

proof fn lemma_all_held(holding: Seq<bool>)
    requires
        forall|p: int| 0 <= p < holding.len() ==> #[trigger] holding[p],
    ensures
        held(holding) == holding.len(),
    decreases holding.len(),
{
    if holding.len() > 0 {
        assert forall|p: int| 0 <= p < holding.drop_last().len() implies #[trigger] holding.drop_last()[p] by {
            assert(holding.drop_last()[p] == holding[p]);
        }
        lemma_all_held(holding.drop_last());
    }
}

proof fn lemma_step_is_sound(plan: FunnelPlan, before: FunnelState, after: FunnelState)
    requires
        plan.wf(),
        before.sound(plan),
        before.steps(after),
    ensures
        after.sound(plan),
{
    reveal(FunnelState::sound);
    reveal(FunnelState::steps);
    if before.consumer_steps(after) {
        if before.channel.recv_outcome() is Closed {
            assert(before.channel.queue.len() == 0 && before.channel.senders == 0);
        }
    } else {
        let p = choose|p: int| before.producer_steps(p, after);
        lemma_remaining_at(before.producers, after.producers, p);
        lemma_held_at(before.holding, after.holding, p);
        assert(before.consumer.is_open() || before.channel.senders == 0);
        if !before.consumer.is_open() {
            lemma_none_held(before.holding);
        }
        assert forall|q: int| 0 <= q < after.producers.len() implies (
        #[trigger] after.producers[q]).wf() && after.producers[q].quota() == plan.quota by {
            if q != p {
                assert(after.producers[q] == before.producers[q]);
            }
        }
        assert forall|q: int| 0 <= q < after.holding.len() && !(
        #[trigger] after.holding[q]) implies owed(after.producers[q]) == 0 by {
            if q != p {
                assert(after.holding[q] == before.holding[q]);
                assert(after.producers[q] == before.producers[q]);
            }
        }
    }
}

/// No message is lost, none is made up and none overtakes another of the same producer,
/// whatever the number of producers, their quota and the capacity of the channel, and in
/// whatever order the tasks make their steps. At every moment each message that the
/// producers are to send is received, waits in the channel or is yet to be sent. A
/// consumer that has seen the closure has received as many messages as were to be sent,
/// and of each producer the messages with the numbers from zero up to the quota, each once
/// and in the order of the numbers.
pub proof fn lemma_funnel_delivers_all(plan: FunnelPlan, states: Seq<FunnelState>)
    requires
        plan.wf(),
        is_run(plan, states),
    ensures
        states.last().sound(plan),
        states.last().in_order(),
        states.last().received.len() + states.last().channel.queue.len() + remaining(
            states.last().producers,
        ) == plan.total_messages(),
        !states.last().consumer.is_open() ==> {
            &&& states.last().received.len() == plan.total_messages()
            &&& forall|p: int|
                0 <= p < plan.producers ==> #[trigger] numbers_from(states.last().received, p)
                    == counting(plan.quota as nat)
        },
    decreases states.len(),
{
    if states.len() == 1 {
        lemma_start_is_sound(plan, states[0]);
    } else {
        let earlier = states.drop_last();
        assert(is_run(plan, earlier)) by {
            assert(earlier[0] == states[0]);
            assert forall|i: int| 1 <= i < earlier.len() implies earlier[i - 1].steps(
                #[trigger] earlier[i],
            ) by {
                assert(earlier[i - 1] == states[i - 1]);
                assert(states[i - 1].steps(states[i]));
            }
        }
        lemma_funnel_delivers_all(plan, earlier);
        assert(earlier.last() == states[states.len() - 2]);
        assert(states[states.len() - 2].steps(states[states.len() - 1]));
        lemma_step_is_sound(plan, earlier.last(), states.last());
        lemma_step_keeps_order(plan, earlier.last(), states.last());
    }
    lemma_sound_at_the_end(plan, states.last());
}

proof fn lemma_sound_at_the_end(plan: FunnelPlan, last: FunnelState)
    requires
        last.sound(plan),
        last.in_order(),
    ensures
        last.received.len() + last.channel.queue.len() + remaining(last.producers)
            == plan.total_messages(),
        !last.consumer.is_open() ==> {
            &&& last.received.len() == plan.total_messages()
            &&& forall|p: int|
                0 <= p < plan.producers ==> #[trigger] numbers_from(last.received, p) == counting(
                    plan.quota as nat,
                )
        },
{
    reveal(FunnelState::sound);
    reveal(FunnelState::in_order);
    if !last.consumer.is_open() {
        lemma_none_held(last.holding);
        assert forall|p: int| 0 <= p < last.producers.len() implies owed(
            #[trigger] last.producers[p],
        ) == 0 by {
            assert(!last.holding[p]);
        }
        lemma_nothing_owed(last.producers);
        assert(last.received + last.channel.queue =~= last.received);
        assert forall|p: int| 0 <= p < plan.producers implies #[trigger] numbers_from(
            last.received,
            p,
        ) == counting(plan.quota as nat) by {
            assert(owed(last.producers[p]) == 0);
            assert(numbers_from(last.received + last.channel.queue, p) == counting(
                last.producers[p].sent_so_far(),
            ));
        }
    }
}

proof fn lemma_run_goes_on(plan: FunnelPlan, states: Seq<FunnelState>, next: FunnelState)
    requires
        is_run(plan, states),
        states.last().steps(next),
    ensures
        is_run(plan, states.push(next)),
        states.push(next).last() == next,
{
    let longer = states.push(next);
    assert(longer[0] == states[0]);
    assert forall|i: int| 1 <= i < longer.len() implies longer[i - 1].steps(
        #[trigger] longer[i],
    ) by {
        if i < states.len() {
            assert(longer[i - 1] == states[i - 1] && longer[i] == states[i]);
            assert(states[i - 1].steps(states[i]));
        } else {
            assert(longer[i - 1] == states.last() && longer[i] == next);
        }
    }
}

/// A run that a producer goes on with is a run, and sound as before; what the producers
/// owe and hold changes by the step of that producer alone.
proof fn lemma_producer_stepped(
    plan: FunnelPlan,
    states: Seq<FunnelState>,
    p: int,
    next: FunnelState,
)
    requires
        plan.wf(),
        is_run(plan, states),
        states.last().sound(plan),
        states.last().producer_steps(p, next),
    ensures
        is_run(plan, states.push(next)),
        states.push(next).last() == next,
        next.sound(plan),
        remaining(next.producers) + owed(states.last().producers[p]) == remaining(
            states.last().producers,
        ) + owed(next.producers[p]),
        held(next.holding) + (if states.last().holding[p] { 1int } else { 0int }) == held(
            states.last().holding,
        ) + (if next.holding[p] { 1int } else { 0int }),
{
    let before = states.last();
    assert(before.steps(next)) by {
        reveal(FunnelState::steps);
    }
    lemma_run_goes_on(plan, states, next);
    lemma_step_is_sound(plan, before, next);
    lemma_remaining_at(before.producers, next.producers, p);
    lemma_held_at(before.holding, next.holding, p);
}

/// A run that the consumer goes on with is a run, and sound as before.
proof fn lemma_consumer_stepped(plan: FunnelPlan, states: Seq<FunnelState>, next: FunnelState)
    requires
        plan.wf(),
        is_run(plan, states),
        states.last().sound(plan),
        states.last().consumer_steps(next),
    ensures
        is_run(plan, states.push(next)),
        states.push(next).last() == next,
        next.sound(plan),
{
    let before = states.last();
    assert(before.steps(next)) by {
        reveal(FunnelState::steps);
    }
    lemma_run_goes_on(plan, states, next);
    lemma_step_is_sound(plan, before, next);
}

proof fn lemma_a_holder_counts(holding: Seq<bool>, p: int)
    requires
        0 <= p < holding.len(),
        holding[p],
    ensures
        held(holding) >= 1,
    decreases holding.len(),
{
    if p < holding.len() - 1 {
        lemma_a_holder_counts(holding.drop_last(), p);
    }
}

proof fn lemma_no_holder_counts(holding: Seq<bool>)
    requires
        forall|p: int| 0 <= p < holding.len() ==> !#[trigger] holding[p],
    ensures
        held(holding) == 0,
    decreases holding.len(),
{
    if holding.len() > 0 {
        assert forall|p: int| 0 <= p < holding.drop_last().len() implies !#[trigger] holding.drop_last()[p] by {
            assert(holding.drop_last()[p] == holding[p]);
        }
        lemma_no_holder_counts(holding.drop_last());
    }
}

/// What a simulation relies on between two steps.
proof fn lemma_sound_in_use(plan: FunnelPlan, state: FunnelState)
    requires
        state.sound(plan),
    ensures
        state.producers.len() == plan.producers,
        state.holding.len() == plan.producers,
        state.channel.wf(),
        state.channel.capacity == plan.capacity,
        state.channel.senders == held(state.holding),
        state.received.len() + state.channel.queue.len() + remaining(state.producers)
            == plan.total_messages(),
        forall|p: int|
            0 <= p < state.producers.len() ==> (#[trigger] state.producers[p]).wf()
                && state.producers[p].quota() == plan.quota,
{
    reveal(FunnelState::sound);
}

/// What the consumer has seen when a funnel has run dry.
#[derive(Clone, Copy, Debug, PartialEq, Eq)]
pub struct FunnelOutcome {
    /// How many messages the channel accepted from the producers.
    pub sent: u64,
    /// How many messages the consumer received before it saw the closure.
    pub received: u64,
}

/// Runs a funnel on one thread, over the channel of this library. The tasks take turns,
/// the producers in their order and then the consumer; each goes on until the channel
/// suspends it or its script ends, and a task that ends lets go of its handle. A producer
/// sends each message under its own name. What happens is a run of the funnel step by
/// step, up to the step in which the consumer sees the closure; so the consumer receives
/// every message that the producers were to send, whatever their number, their quota and
/// the capacity, and `lemma_funnel_delivers_all` holds of what it received.
pub fn simulate(plan: &FunnelPlan) -> (outcome: FunnelOutcome)
    requires
        plan.wf(),
    ensures
        outcome.sent == plan.total_messages(),
        outcome.received == plan.total_messages(),
        exists|states: Seq<FunnelState>|
            is_run(*plan, states) && !states.last().consumer.is_open()
                && states.last().received.len() == outcome.received,
{
    let mut channel: Channel<Parcel> = Channel::bounded(plan.capacity);
    let mut producers: Vec<Producer> = Vec::new();
    let mut holding: Vec<bool> = Vec::new();
    while producers.len() < plan.producers
        invariant
            plan.wf(),
            producers@.len() <= plan.producers,
            holding@.len() == producers@.len(),
            channel@ == (ChannelView::<Parcel> {
                capacity: plan.capacity as nat,
                queue: Seq::empty(),
                senders: (producers@.len() + 1) as nat,
            }),
            forall|p: int|
                0 <= p < producers@.len() ==> {
                    &&& (#[trigger] producers@[p]).wf()
                    &&& producers@[p].quota() == plan.quota
                    &&& producers@[p].sent_so_far() == 0
                },
            forall|p: int| 0 <= p < holding@.len() ==> #[trigger] holding@[p],
        decreases plan.producers - producers@.len(),
    {
        channel.clone_sender();
        producers.push(Producer::new(plan.quota));
        holding.push(true);
    }
    channel.drop_sender();
    let mut consumer = Consumer::new();
    let mut sent: u64 = 0;
    let mut received: u64 = 0;
    let mut open: bool = true;
    let ghost mut states: Seq<FunnelState> = seq![
        FunnelState {
            producers: producers@,
            holding: holding@,
            channel: channel@,
            consumer,
            received: Seq::empty(),
        },
    ];
    let ghost mut log: Seq<Parcel> = Seq::empty();
    proof {
        assert(states[0].starts(*plan));
        lemma_start_is_sound(*plan, states[0]);
        lemma_all_owed(producers@, plan.quota as nat);
    }
    while open
        invariant
            plan.wf(),
            is_run(*plan, states),
            states.last() == (FunnelState {
                producers: producers@,
                holding: holding@,
                channel: channel@,
                consumer,
                received: log,
            }),
            states.last().sound(*plan),
            log.len() == received,
            sent + remaining(producers@) == plan.total_messages(),
            channel@.queue.len() == 0,
            consumer.wf(),
            open == consumer.is_open(),
        decreases remaining(producers@) + held(holding@) + (if open { 1int } else { 0int }),
    {
        let ghost work_before = remaining(producers@) + held(holding@);
        proof {
            lemma_sound_in_use(*plan, states.last());
        }
        let mut turn: usize = 0;
        while turn < producers.len()
            invariant
                plan.wf(),
                is_run(*plan, states),
                states.last() == (FunnelState {
                    producers: producers@,
                    holding: holding@,
                    channel: channel@,
                    consumer,
                    received: log,
                }),
                states.last().sound(*plan),
                log.len() == received,
                producers@.len() == plan.producers,
                holding@.len() == plan.producers,
                sent + remaining(producers@) == plan.total_messages(),
                consumer.wf(),
                open,
                consumer.is_open(),
                turn <= producers@.len(),
                remaining(producers@) + held(holding@) <= work_before,
                remaining(producers@) + held(holding@) == work_before ==> {
                    &&& channel@.queue.len() == 0
                    &&& forall|q: int| 0 <= q < turn ==> !#[trigger] holding@[q]
                },
            decreases producers@.len() - turn,
        {
            let ghost work_at_turn = remaining(producers@) + held(holding@);
            let ghost queue_at_turn = channel@.queue.len();
            let ghost holding_at_turn = holding@;
            let mut running: bool = holding[turn];
            while running
                invariant
                    plan.wf(),
                    is_run(*plan, states),
                    states.last() == (FunnelState {
                        producers: producers@,
                        holding: holding@,
                        channel: channel@,
                        consumer,
                        received: log,
                    }),
                    states.last().sound(*plan),
                    log.len() == received,
                    producers@.len() == plan.producers,
                    holding@.len() == plan.producers,
                    turn < producers@.len(),
                    sent + remaining(producers@) == plan.total_messages(),
                    consumer.wf(),
                    consumer.is_open(),
                    running ==> holding@[turn as int],
                    remaining(producers@) + held(holding@) <= work_at_turn,
                    remaining(producers@) + held(holding@) == work_at_turn ==> {
                        &&& channel@.queue.len() == queue_at_turn
                        &&& holding@ == holding_at_turn
                        &&& holding@[turn as int] && !running ==> channel@.is_full()
                    },
                decreases
                        remaining(producers@) + held(holding@) + (if running { 1int } else { 0int }),
            {
                let ghost before = states.last();
                proof {
                    lemma_sound_in_use(*plan, before);
                    lemma_a_holder_counts(holding@, turn as int);
                    lemma_remaining_remove(producers@, turn as int);
                }
                let mut producer = producers[turn];
                match producer.action() {
                    Action::Send(message) => {
                        match channel.send((turn, message)) {
                            Sent::Accepted => {
                                producer.sent();
                                producers.set(turn, producer);
                                sent = sent + 1;
                                proof {
                                    let next = FunnelState {
                                        producers: producers@,
                                        holding: holding@,
                                        channel: channel@,
                                        consumer,
                                        received: log,
                                    };
                                    lemma_producer_stepped(*plan, states, turn as int, next);
                                    states = states.push(next);
                                }
                            },
                            Sent::Suspended(_) => {
                                running = false;
                            },
                        }
                    },
                    _ => {
                        holding.set(turn, false);
                        channel.drop_sender();
                        running = false;
                        proof {
                            let next = FunnelState {
                                producers: producers@,
                                holding: holding@,
                                channel: channel@,
                                consumer,
                                received: log,
                            };
                            lemma_producer_stepped(*plan, states, turn as int, next);
                            states = states.push(next);
                        }
                    },
                }
            }
            proof {
                lemma_sound_in_use(*plan, states.last());
            }
            turn = turn + 1;
        }
        proof {
            lemma_sound_in_use(*plan, states.last());
            if remaining(producers@) + held(holding@) == work_before {
                lemma_no_holder_counts(holding@);
            }
        }
        let mut draining: bool = true;
        while draining
            invariant
                plan.wf(),
                is_run(*plan, states),
                states.last() == (FunnelState {
                    producers: producers@,
                    holding: holding@,
                    channel: channel@,
                    consumer,
                    received: log,
                }),
                states.last().sound(*plan),
                log.len() == received,
                sent + remaining(producers@) == plan.total_messages(),
                consumer.wf(),
                open == consumer.is_open(),
                draining ==> open,
                !draining ==> channel@.queue.len() == 0,
                remaining(producers@) + held(holding@) <= work_before,
                remaining(producers@) + held(holding@) == work_before ==> {
                    &&& channel@.senders == 0
                    &&& !draining ==> !open
                },
            decreases channel@.queue.len() + (if draining { 1int } else { 0int }),
        {
            let ghost before = states.last();
            proof {
                lemma_sound_in_use(*plan, before);
            }
            match channel.recv() {
                Received::Message(parcel) => {
                    consumer.received(Some(parcel.1));
                    received = received + 1;
                    proof {
                        log = log.push(parcel);
                        let next = FunnelState {
                            producers: producers@,
                            holding: holding@,
                            channel: channel@,
                            consumer,
                            received: log,
                        };
                        lemma_consumer_stepped(*plan, states, next);
                        states = states.push(next);
                    }
                },
                Received::Suspended => {
                    draining = false;
                },
                Received::Closed => {
                    consumer.received(None);
                    open = false;
                    draining = false;
                    proof {
                        let next = FunnelState {
                            producers: producers@,
                            holding: holding@,
                            channel: channel@,
                            consumer,
                            received: log,
                        };
                        lemma_consumer_stepped(*plan, states, next);
                        states = states.push(next);
                    }
                },
            }
        }
    }
    proof {
        lemma_funnel_delivers_all(*plan, states);
        lemma_sound_in_use(*plan, states.last());
    }
    FunnelOutcome { sent, received }
}

} // verus!
