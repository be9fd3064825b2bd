//! One measurement: bring up a runtime, hand it the tasks of a topology, and time how
//! long it takes until all of them have ended.

use crate::executor_shims::{Executor, StartFailure, TaskFailure};
use crate::script::{Bumper, Consumer, Producer, Striker};
use core::future::Future;
use vstd::prelude::*;

verus! {

/// `std::time::Instant`, of which nothing is seen from here.
#[verifier::external_type_specification]
#[verifier::external_body]
pub struct ExInstant(std::time::Instant);

/// A channel technology as the benchmarks see it: it builds the tasks of a topology, each
/// time over channels of its own that nothing else uses. A task runs its script against
/// its end of a channel and ends when the script does.
pub trait Wiring {
    /// What a runtime is handed.
    type Job: Future<Output = ()> + Send + 'static;

    /// The tasks of a funnel over one channel of the given capacity: a task for each
    /// producer, in their order, and after them the task of the consumer.
    fn funnel(&self, capacity: usize, producers: Vec<Producer>, consumer: Consumer) -> Vec<
        Self::Job,
    >;

    /// The two tasks of a pinball pair over two channels of the given capacity: the task
    /// of the striker, then that of the bumper.
    fn pinball(&self, capacity: usize, striker: Striker, bumper: Bumper) -> Vec<Self::Job>;
}

/// The size of a topology at a point of its sweep: one at first, and twice as much from
/// each point to the next.
pub open spec fn size_at(point: nat) -> nat
    decreases point,
{
    if point == 0 {
        1
    } else {
        2 * size_at((point - 1) as nat)
    }
}

/// Why a measurement came to nothing.
#[derive(Debug)]
pub enum RunError {
    /// The runtime could not be brought up.
    Start(StartFailure),
    /// A task ended abnormally.
    Failed(TaskFailure),
    /// The wiring handed over another number of tasks than the topology has.
    Miswired { expected: usize, found: usize },
    /// No time passed that the clock could tell, or the rate does not fit in 64 bits.
    Unmeasurable,
}

/// How many tasks ran to their end, how many messages went through, and in how many
/// nanoseconds.
#[derive(Clone, Copy, Debug, PartialEq, Eq, Structural)]
pub struct Timing {
    pub tasks: usize,
    pub messages: u64,
    pub nanos: u128,
}

impl Timing {
    /// The throughput in whole messages per second, rounded down. There is none where no
    /// time passed, where the number does not fit in 64 bits, and where messages went
    /// through so slowly that the number would be zero.
    pub open spec fn rate(self) -> Option<u64> {
        if self.nanos == 0 {
            None
        } else {
            let whole = self.messages * 1_000_000_000 / (self.nanos as int);
            if whole > u64::MAX || (whole == 0 && self.messages > 0) {
                None
            } else {
                Some(whole as u64)
            }
        }
    }

    /// Computes `rate`. A run that moved messages has a rate of at least one.
    pub fn throughput(&self) -> (rate: Option<u64>)
        ensures
            rate == self.rate(),
            rate matches Some(whole) ==> (self.messages > 0 ==> whole >= 1),
    {
        if self.nanos == 0 {
            return None;
        }
        assert(self.messages * 1_000_000_000 <= u128::MAX) by (nonlinear_arith)
            requires
                self.messages <= u64::MAX,
        ;
        let scaled: u128 = (self.messages as u128) * 1_000_000_000;
        let rate: u128 = scaled / self.nanos;
        if rate > u64::MAX as u128 || (rate == 0 && self.messages > 0) {
            None
        } else {
            Some(rate as u64)
        }
    }
}

/// The sample that a timing gives: its rate, or no measurement where it has none.
pub fn sample(timing: &Timing) -> (r: Result<u64, RunError>)
    ensures
        match r {
            Ok(rate) => timing.rate() == Some(rate),
            Err(error) => timing.rate() is None && error is Unmeasurable,
        },
{
    match timing.throughput() {
        Some(rate) => Ok(rate),
        None => Err(RunError::Unmeasurable),
    }
}

/// Holds the number of tasks that a wiring made against the number that the topology has.
pub fn wired(expected: usize, found: usize) -> (r: Result<(), RunError>)
    ensures
        match r {
            Ok(()) => found == expected,
            Err(RunError::Miswired { expected: wanted, found: made }) => found != expected
                && wanted == expected && made == found,
            Err(_) => false,
        },
{
    if found == expected {
        Ok(())
    } else {
        Err(RunError::Miswired { expected, found })
    }
}

/// `std::time::Instant::now`: the present moment on a clock that never goes back.
#[verifier::external_body]
fn now() -> std::time::Instant {
    std::time::Instant::now()
}

/// `std::time::Instant::elapsed`: the time that has passed since the moment.
#[verifier::external_body]
fn elapsed(since: &std::time::Instant) -> core::time::Duration {
    since.elapsed()
}

/// `core::time::Duration::as_nanos`: the duration in whole nanoseconds.
#[verifier::external_body]
fn as_nanos(duration: &core::time::Duration) -> u128 {
    duration.as_nanos()
}

/// Runs the tasks on a runtime of their own and times them. The runtime is brought up
/// for this run and used for nothing else; the tasks are spawned in their order, and the
/// clock runs from the moment the last one is spawned until all of them have ended.
pub fn run_once<E: Executor, T: Future<Output = ()> + Send + 'static>(
    tasks: Vec<T>,
    messages: u64,
) -> (r: Result<Timing, RunError>)
    ensures
        match r {
            Ok(timing) => timing.messages == messages && timing.tasks == tasks@.len(),
            Err(RunError::Failed(failure)) => failure.task < tasks@.len(),
            Err(RunError::Start(_)) => true,
            Err(_) => false,
        },
{
    let mut executor = match E::start() {
        Ok(executor) => executor,
        Err(failure) => {
            return Err(RunError::Start(failure));
        },
    };
    let mut tasks = tasks;
    let total: usize = tasks.len();
    while tasks.len() > 0
        invariant
            executor.pending() + tasks@.len() == total,
        decreases tasks@.len(),
    {
        let task = tasks.remove(0);
        executor.spawn(task);
    }
    assert(executor.pending() == total);
    let started = now();
    let joined = executor.join_all();
    let duration = elapsed(&started);
    match joined {
        Ok(()) => Ok(Timing { tasks: total, messages, nanos: as_nanos(&duration) }),
        Err(failure) => Err(RunError::Failed(failure)),
    }
}

} // verus!
