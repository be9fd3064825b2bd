//! The pinball: pairs of tasks that pass a ball back and forth over two bounded channels,
//! a number of rounds each.

use crate::bench::{run_once, sample, size_at, wired, RunError, Wiring};
use crate::executor_shims::Executor;
use crate::mock::{Channel, Received, Sent};
use crate::result::{BenchResult, SampleCount};
use crate::script::{Action, Bumper, Script, Striker};
use crate::text::{decimal, decimal_of};
use vstd::prelude::*;

verus! {

/// The size of one game of pinball.
#[derive(Clone, Copy, Debug, PartialEq, Eq)]
pub struct PinballPlan {
    /// How many pairs play at the same time.
    pub pairs: usize,
    /// How many rounds each pair plays.
    pub rounds: u64,
    /// How many messages each channel holds.
    pub capacity: usize,
}

impl PinballPlan {
    /// The channels have room for a message, and the messages can be counted in 64 bits
    /// and the tasks in a `usize`.
    pub open spec fn wf(&self) -> bool {
        &&& self.capacity >= 1
        &&& 2 * self.pairs <= usize::MAX
        &&& 2 * self.rounds * self.pairs <= u64::MAX
    }

    /// How many messages all pairs exchange: in every round of every pair the ball that
    /// goes out and the ball that comes back.
    pub open spec fn total_messages(&self) -> nat {
        (2 * self.rounds * self.pairs) as nat
    }

    /// How many tasks take part: two in each pair.
    pub open spec fn total_tasks(&self) -> nat {
        (2 * self.pairs) as nat
    }

    /// Computes `wf`.
    pub fn is_valid(&self) -> (valid: bool)
        ensures
            valid == self.wf(),
    {
        if self.capacity < 1 {
            return false;
        }
        match self.pairs.checked_mul(2) {
            Some(players) => {
                assert(2 * self.rounds * self.pairs == players * self.rounds)
                    by (nonlinear_arith)
                    requires
                        players == 2 * self.pairs,
                ;
                (players as u64).checked_mul(self.rounds).is_some()
            },
            None => false,
        }
    }

    /// Computes `total_messages`.
    pub fn messages(&self) -> (messages: u64)
        requires
            self.wf(),
        ensures
            messages == self.total_messages(),
    {
        assert(2 * self.rounds * self.pairs == self.rounds * (2 * self.pairs))
            by (nonlinear_arith);
        assert(2 * self.rounds <= 2 * self.rounds * self.pairs || self.pairs == 0)
            by (nonlinear_arith);
        if self.pairs == 0 {
            0
        } else {
            (2 * self.rounds) * (self.pairs as u64)
        }
    }
}

/// How many sizes the pinball is measured at.
pub const PINBALL_POINTS: usize = 7;

/// How many rounds each pair plays when the pinball is measured.
pub const PINBALL_ROUNDS: u64 = 100_000;

/// How many messages each channel holds when the pinball is measured.
pub const PINBALL_CAPACITY: usize = 1;

/// The sizes at which the pinball is measured, in the order in which they are run: one
/// pair at first and twice as many from each point to the next, with the same number of
/// rounds and the same capacity throughout.
pub fn sweep() -> (plans: Vec<PinballPlan>)
    ensures
        plans@.len() == PINBALL_POINTS,
        forall|i: int|
            0 <= i < plans@.len() ==> {
                &&& (#[trigger] plans@[i]).wf()
                &&& plans@[i].pairs == size_at(i as nat)
                &&& plans@[i].rounds == PINBALL_ROUNDS
                &&& plans@[i].capacity == PINBALL_CAPACITY
            },
{
    let mut plans: Vec<PinballPlan> = Vec::new();
    let mut pairs: usize = 1;
    while plans.len() < PINBALL_POINTS
        invariant
            plans@.len() <= PINBALL_POINTS,
            pairs == size_at(plans@.len()),
            pairs <= 64 || plans@.len() == PINBALL_POINTS,
            1 <= pairs <= 128,
            forall|i: int|
                0 <= i < plans@.len() ==> {
                    &&& (#[trigger] plans@[i]).wf()
                    &&& plans@[i].pairs == size_at(i as nat)
                    &&& plans@[i].rounds == PINBALL_ROUNDS
                    &&& plans@[i].capacity == PINBALL_CAPACITY
                },
        decreases PINBALL_POINTS - plans@.len(),
    {
        proof {
            reveal_with_fuel(size_at, 8);
        }
        let plan = PinballPlan { pairs, rounds: PINBALL_ROUNDS, capacity: PINBALL_CAPACITY };
        assert(plan.wf()) by (nonlinear_arith)
            requires
                plan.pairs <= 64,
                plan.rounds == 100_000,
                plan.capacity == 1,
        ;
        plans.push(plan);
        pairs = 2 * pairs;
    }
    plans
}

/// The label of the results of the pinball.
pub open spec fn label() -> Seq<char> {
    "pinball"@
}

/// Measures a game of one size, once for each sample, every time on a runtime and over
/// channels that are made for that sample alone. For each pair the wiring is handed the
/// capacity of the plan, a striker with the rounds of the plan before it and a bumper that
/// has seen nothing; what it hands back is held to two tasks with `wired`. The tasks of
/// all pairs are timed with `run_once` for the messages of the plan, and the timing is
/// turned into a sample with `sample`. The result is labelled `pinball`, carries the
/// number of pairs in decimal as its parameter, and holds one sample for each run in the
/// order of the runs; where the plan has messages, no sample is zero. The first run that
/// fails ends the measurement with its error.
pub fn measure<E: Executor, W: Wiring>(wiring: &W, plan: &PinballPlan, samples: SampleCount) -> (r:
    Result<BenchResult, RunError>)
    requires
        plan.wf(),
    ensures
        match r {
            Ok(result) => {
                &&& result@.label == label()
                &&& result@.parameter == decimal_of(plan.pairs as nat)
                &&& result@.throughput.len() == samples@
                &&& plan.total_messages() > 0 ==> forall|i: int|
                    0 <= i < result@.throughput.len() ==> #[trigger] result@.throughput[i] >= 1
            },
            Err(RunError::Miswired { expected, found }) => expected == 2 && found != expected,
            Err(RunError::Failed(failure)) => failure.task < plan.total_tasks(),
            Err(_) => true,
        },
{
    let wanted = samples.get();
    let messages = plan.messages();
    let mut throughput: Vec<u64> = Vec::new();
    let mut taken: u32 = 0;
    while taken < wanted
        invariant
            plan.wf(),
            messages == plan.total_messages(),
            taken <= wanted,
            throughput@.len() == taken,
            messages > 0 ==> forall|i: int|
                0 <= i < throughput@.len() ==> #[trigger] throughput@[i] >= 1,
        decreases wanted - taken,
    {
        let mut tasks: Vec<W::Job> = Vec::new();
        let mut pair: usize = 0;
        while pair < plan.pairs
            invariant
                plan.wf(),
                pair <= plan.pairs,
                tasks@.len() == 2 * pair,
            decreases plan.pairs - pair,
        {
            let mut players = wiring.pinball(
                plan.capacity,
                Striker::new(plan.rounds),
                Bumper::new(),
            );
            match wired(2, players.len()) {
                Ok(()) => {},
                Err(error) => {
                    return Err(error);
                },
            }
            tasks.append(&mut players);
            pair = pair + 1;
        }
        let timing = match run_once::<E, W::Job>(tasks, messages) {
            Ok(timing) => timing,
            Err(error) => {
                return Err(error);
            },
        };
        match sample(&timing) {
            Ok(rate) => {
                throughput.push(rate);
            },
            Err(error) => {
                return Err(error);
            },
        }
        taken = taken + 1;
    }
    Ok(BenchResult::new("pinball".to_owned(), decimal(plan.pairs as u64), throughput))
}

/// How far a pair is from the end of its game.
spec fn distance(striker: Striker, striker_live: bool) -> int {
    2 * (striker.rounds() - striker.played()) + (if striker_live { 1int } else { 0int }) + (
    if striker.is_waiting() { 0int } else { 1int })
}

/// Lets one pair play its rounds on one thread, over two channels of this library: one
/// takes the ball to the bumper, the other takes it back. The two tasks take turns, the
/// striker first; each goes on until a channel suspends it or its script ends, and a task
/// that ends lets go of its handle. Returns how many messages the channels accepted: two
/// for each round.
pub fn rally(rounds: u64, capacity: usize) -> (messages: u64)
    requires
        capacity >= 1,
        2 * rounds <= u64::MAX,
    ensures
        messages == 2 * rounds,
{
    let mut there: Channel<u64> = Channel::bounded(capacity);
    let mut back: Channel<u64> = Channel::bounded(capacity);
    let mut striker = Striker::new(rounds);
    let mut bumper = Bumper::new();
    let mut striker_live: bool = true;
    let mut bumper_live: bool = true;
    let mut messages: u64 = 0;
    while striker_live || bumper_live
        invariant
            2 * rounds <= u64::MAX,
            there@.wf(),
            back@.wf(),
            striker.wf(),
            striker.rounds() == rounds,
            there@.queue.len() == 0,
            striker_live ==> {
                &&& bumper_live
                &&& there@.senders == 1
                &&& back@.senders == 1
                &&& bumper.holding() is None
                &&& bumper.is_open()
            },
            striker_live && !striker.is_waiting() ==> {
                &&& striker.played() == 0
                &&& messages == 0
                &&& back@.queue.len() == 0
            },
            striker_live && striker.is_waiting() ==> {
                &&& back@.queue.len() == 1
                &&& messages == 2 * striker.played() + 2
            },
            !striker_live ==> !bumper_live && messages == 2 * rounds,
        decreases distance(striker, striker_live),
    {
        let ghost distance_before = distance(striker, striker_live);
        // The striker's turn. `stage` says how far the turn has come: 3 where the ball is
        // back and waits to be received, 2 where the striker holds it, 1 where the ball is
        // out, 0 where the striker has ended.
        let ghost mut stage: int = if striker.is_waiting() { 3 } else { 2 };
        let mut running: bool = striker_live;
        while running
            invariant
                2 * rounds <= u64::MAX,
                there@.wf(),
                back@.wf(),
                striker.wf(),
                striker.rounds() == rounds,
                bumper_live,
                bumper.holding() is None,
                bumper.is_open(),
                back@.senders == 1,
                running ==> stage >= 1 && striker_live,
                0 <= stage <= 3,
                stage >= 1 ==> striker_live && there@.senders == 1,
                stage == 3 ==> {
                    &&& striker.is_waiting()
                    &&& back@.queue.len() == 1
                    &&& there@.queue.len() == 0
                    &&& messages == 2 * striker.played() + 2
                },
                stage == 2 ==> {
                    &&& !striker.is_waiting()
                    &&& back@.queue.len() == 0
                    &&& there@.queue.len() == 0
                    &&& messages == 2 * striker.played()
                },
                stage == 1 ==> {
                    &&& striker.is_waiting()
                    &&& back@.queue.len() == 0
                    &&& there@.queue.len() == 1
                    &&& messages == 2 * striker.played() + 1
                },
                stage == 0 ==> {
                    &&& !striker_live
                    &&& !striker.is_waiting()
                    &&& striker.played() == rounds
                    &&& there@.senders == 0
                    &&& back@.queue.len() == 0
                    &&& there@.queue.len() == 0
                    &&& messages == 2 * rounds
                },
                !running ==> stage <= 1,
                distance(striker, striker_live) <= distance_before,
                stage <= 1 ==> distance(striker, striker_live) < distance_before,
            decreases stage + (if running { 1int } else { 0int }),
        {
            match striker.action() {
                Action::Send(ball) => {
                    match there.send(ball) {
                        Sent::Accepted => {
                            striker.sent();
                            messages = messages + 1;
                            proof {
                                stage = 1;
                            }
                        },
                        Sent::Suspended(_) => {
                            running = false;
                        },
                    }
                },
                Action::Recv => {
                    match back.recv() {
                        Received::Message(ball) => {
                            striker.received(Some(ball));
                            proof {
                                stage = 2;
                            }
                        },
                        Received::Suspended => {
                            running = false;
                        },
                        Received::Closed => {
                            striker.received(None);
                        },
                    }
                },
                Action::Done => {
                    there.drop_sender();
                    striker_live = false;
                    running = false;
                    proof {
                        stage = 0;
                    }
                },
            }
        }
        // The bumper's turn. `step` says how far the turn has come: 3 where the ball waits
        // for the bumper, 2 where the bumper holds it, 1 where the ball is on its way back
        // or the striker is gone, 0 where the bumper has ended.
        let ghost mut step: int = if striker_live { 3 } else { 1 };
        let mut running: bool = bumper_live;
        while running
            invariant
                distance(striker, striker_live) < distance_before,
                2 * rounds <= u64::MAX,
                there@.wf(),
                back@.wf(),
                striker.wf(),
                striker.rounds() == rounds,
                0 <= step <= 3,
                running ==> step >= 1,
                step >= 1 ==> bumper_live && back@.senders == 1,
                striker_live ==> there@.senders == 1 && striker.is_waiting(),
                !striker_live ==> {
                    &&& !striker.is_waiting()
                    &&& striker.played() == rounds
                    &&& there@.senders == 0
                    &&& there@.queue.len() == 0
                    &&& messages == 2 * rounds
                    &&& step <= 1
                    &&& bumper.holding() is None
                },
                striker_live && step == 3 ==> {
                    &&& bumper.holding() is None
                    &&& bumper.is_open()
                    &&& there@.queue.len() == 1
                    &&& back@.queue.len() == 0
                    &&& messages == 2 * striker.played() + 1
                },
                striker_live && step == 2 ==> {
                    &&& bumper.holding() is Some
                    &&& bumper.is_open()
                    &&& there@.queue.len() == 0
                    &&& back@.queue.len() == 0
                    &&& messages == 2 * striker.played() + 1
                },
                striker_live && step == 1 ==> {
                    &&& bumper.holding() is None
                    &&& bumper.is_open()
                    &&& there@.queue.len() == 0
                    &&& back@.queue.len() == 1
                    &&& messages == 2 * striker.played() + 2
                },
                striker_live ==> step >= 1,
                !striker_live && step == 1 ==> bumper.holding() is None,
                step == 0 ==> !bumper_live && !striker_live,
                !running ==> (striker_live && step == 1) || step == 0,
            decreases
                    2 * step + (if bumper.is_open() { 1int } else { 0int }) + (if running {
                    1int
                } else {
                    0int
                }),
        {
            match bumper.action() {
                Action::Send(ball) => {
                    match back.send(ball) {
                        Sent::Accepted => {
                            bumper.sent();
                            messages = messages + 1;
                            proof {
                                step = 1;
                            }
                        },
                        Sent::Suspended(_) => {
                            running = false;
                        },
                    }
                },
                Action::Recv => {
                    match there.recv() {
                        Received::Message(ball) => {
                            bumper.received(Some(ball));
                            proof {
                                step = 2;
                            }
                        },
                        Received::Suspended => {
                            running = false;
                        },
                        Received::Closed => {
                            bumper.received(None);
                        },
                    }
                },
                Action::Done => {
                    back.drop_sender();
                    bumper_live = false;
                    running = false;
                    proof {
                        step = 0;
                    }
                },
            }
        }
    }
    messages
}

/// Lets every pair of a game play, one pair after the other, and returns how many messages
/// were exchanged in all: two for each round of each pair.
pub fn simulate(plan: &PinballPlan) -> (messages: u64)
    requires
        plan.wf(),
    ensures
        messages == plan.total_messages(),
{
    let mut messages: u64 = 0;
    let mut pair: usize = 0;
    while pair < plan.pairs
        invariant
            plan.wf(),
            pair <= plan.pairs,
            messages == 2 * plan.rounds * pair,
        decreases plan.pairs - pair,
    {
        assert(2 * plan.rounds * (pair + 1) <= 2 * plan.rounds * plan.pairs) by (nonlinear_arith)
            requires
                pair + 1 <= plan.pairs,
        ;
        assert(2 * plan.rounds * (pair + 1) == 2 * plan.rounds * pair + 2 * plan.rounds)
            by (nonlinear_arith);
        assert(2 * plan.rounds <= 2 * plan.rounds * (pair + 1)) by (nonlinear_arith);
        messages = messages + rally(plan.rounds, plan.capacity);
        pair = pair + 1;
    }
    messages
}

} // verus!
