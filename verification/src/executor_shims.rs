//! Task-scheduling runtimes behind one interface: spawn tasks, then wait for all of them.

use core::future::Future;
use futures_channel::oneshot::Canceled as Dropped;
use futures_channel::oneshot::Receiver as Ended;
use futures_channel::oneshot::Sender as Done;
use nexosim::dev_hooks::Executor as SimulationPool;
use vstd::prelude::*;

verus! {

/// `tokio::runtime::Runtime`, of which nothing is seen from here.
#[verifier::external_type_specification]
#[verifier::external_body]
pub struct ExRuntime(tokio::runtime::Runtime);

/// `tokio::task::JoinHandle`, of which nothing is seen from here.
#[verifier::external_type_specification]
#[verifier::external_body]
#[verifier::reject_recursive_types(T)]
pub struct ExJoinHandle<T>(tokio::task::JoinHandle<T>);

/// `tokio::task::JoinError`, of which nothing is seen from here.
#[verifier::external_type_specification]
#[verifier::external_body]
pub struct ExJoinError(tokio::task::JoinError);

/// `std::io::Error`, of which nothing is seen from here.
#[verifier::external_type_specification]
#[verifier::external_body]
pub struct ExIoError(std::io::Error);

/// `async_task::Task`, the handle that `smol` and `smolscale` give for a spawned task; nothing
/// of it is seen from here.
#[verifier::external_type_specification]
#[verifier::external_body]
#[verifier::reject_recursive_types(T)]
#[verifier::reject_recursive_types(M)]
pub struct ExTask<T, M>(async_task::Task<T, M>);

/// `nexosim::dev_hooks::Executor`, of which nothing is seen from here.
#[verifier::external_type_specification]
#[verifier::external_body]
pub struct ExSimulationPool(SimulationPool);

/// `futures_channel::oneshot::Receiver`, of which nothing is seen from here.
#[verifier::external_type_specification]
#[verifier::external_body]
#[verifier::reject_recursive_types(T)]
pub struct ExEnded<T>(Ended<T>);

/// `futures_channel::oneshot::Sender`, of which nothing is seen from here.
#[verifier::external_type_specification]
#[verifier::external_body]
#[verifier::reject_recursive_types(T)]
pub struct ExDone<T>(Done<T>);

/// `futures_channel::oneshot::Canceled`, of which nothing is seen from here.
#[verifier::external_type_specification]
#[verifier::external_body]
pub struct ExDropped(Dropped);

/// A runtime could not be brought up.
#[derive(Debug)]
pub struct StartFailure {
    /// What the operating system reported.
    pub reason: String,
}

/// A task did not run to its end: it panicked, was torn down, or could not go on.
#[derive(Clone, Copy, Debug, PartialEq, Eq, Structural)]
pub struct TaskFailure {
    /// The position of the task among those spawned since the last join, counted from zero.
    pub task: usize,
}

/// A task-scheduling runtime, or the share that one user has of a runtime that the
/// process keeps: tasks are handed over one by one, and `join_all` is the only way to wait
/// for them.
pub trait Executor: Sized {
    /// How many tasks were spawned and are not yet waited for.
    spec fn pending(&self) -> nat;

    /// Brings up a runtime, with no task of this user on it.
    fn start() -> (r: Result<Self, StartFailure>)
        ensures
            r matches Ok(e) ==> e.pending() == 0,
    ;

    /// Hands a task over to the runtime and returns at once.
    fn spawn<T: Future<Output = ()> + Send + 'static>(&mut self, future: T)
        ensures
            final(self).pending() == old(self).pending() + 1,
    ;

    /// Waits for the tasks that are pending; afterwards none is. Where the wait finds that
    /// one of them did not run to its end, it reports that task by its position among them
    /// and waits no longer.
    fn join_all(&mut self) -> (r: Result<(), TaskFailure>)
        ensures
            final(self).pending() == 0,
            r matches Err(failure) ==> failure.task < old(self).pending(),
    ;
}

/// `tokio::runtime::Builder::build` on `new_multi_thread` with `worker_threads`: a
/// multi-threaded runtime with so many workers, or the error of the operating system that
/// refused it. `worker_threads` panics on zero.
#[verifier::external_body]
fn tokio_runtime(workers: usize) -> Result<tokio::runtime::Runtime, std::io::Error>
    requires
        workers >= 1,
{
    tokio::runtime::Builder::new_multi_thread().worker_threads(workers).build()
}

/// `num_cpus::get`: the number of processors that this process may use, at least one.
#[verifier::external_body]
fn available_cpus() -> (n: usize)
    ensures
        n >= 1,
{
    num_cpus::get()
}

/// `futures_channel::oneshot::Sender::send`: hands the value to the receiver, or back
/// where the receiver is gone.
#[verifier::external_body]
fn signal(done: Done<()>) -> Result<(), ()> {
    done.send(())
}

/// Tells whoever waits for a task that the task has run to its end. A task that is torn
/// down before it gets here tells nothing, and that is how its failure is known.
fn finished(done: Done<()>) {
    let _ = signal(done);
}

/// `tokio::runtime::Runtime::spawn`: the task starts to run in the background at once.
#[verifier::external_body]
fn tokio_spawn<T: Future<Output = ()> + Send + 'static>(
    runtime: &tokio::runtime::Runtime,
    future: T,
) -> tokio::task::JoinHandle<()> {
    runtime.spawn(future)
}

/// `tokio::runtime::Runtime::block_on` on a join handle: blocks until the task has ended and
/// says how. The call panics inside a task of a runtime, so it is made from outside only.
#[verifier::external_body]
fn tokio_wait(
    runtime: &tokio::runtime::Runtime,
    handle: tokio::task::JoinHandle<()>,
) -> Result<(), tokio::task::JoinError> {
    runtime.block_on(handle)
}

/// The multi-threaded runtime of `tokio`, one per instance, with a worker for each
/// processor.
pub struct TokioExecutor {
    join_handles: Vec<tokio::task::JoinHandle<()>>,
    runtime: tokio::runtime::Runtime,
}

impl Executor for TokioExecutor {
    closed spec fn pending(&self) -> nat {
        self.join_handles@.len()
    }

    fn start() -> (r: Result<Self, StartFailure>) {
        match tokio_runtime(available_cpus()) {
            Ok(runtime) => Ok(TokioExecutor { join_handles: Vec::new(), runtime }),
            Err(error) => Err(StartFailure { reason: error.to_string() }),
        }
    }

    fn spawn<T: Future<Output = ()> + Send + 'static>(&mut self, future: T) {
        let handle = tokio_spawn(&self.runtime, future);
        self.join_handles.push(handle);
    }

    fn join_all(&mut self) -> (r: Result<(), TaskFailure>) {
        let mut join_handles: Vec<tokio::task::JoinHandle<()>> = Vec::new();
        core::mem::swap(&mut self.join_handles, &mut join_handles);
        let total: usize = join_handles.len();
        let mut task: usize = 0;
        while join_handles.len() > 0
            invariant
                self.join_handles@.len() == 0,
                total == old(self).join_handles@.len(),
                task + join_handles@.len() == total,
            decreases join_handles@.len(),
        {
            let handle = join_handles.remove(0);
            match tokio_wait(&self.runtime, handle) {
                Ok(()) => {},
                Err(_) => {
                    return Err(TaskFailure { task });
                },
            }
            task = task + 1;
        }
        Ok(())
    }
}

/// `smol::spawn` and `async_task::Task::detach`, on the task under
/// `futures_util::FutureExt::map`: the task goes to the runtime that `smol` keeps for the
/// whole process, and calls `finished` when it has run to its end. What is handed back
/// is the receiving end of `futures_channel::oneshot::channel`.
#[verifier::external_body]
fn smol_spawn<T: Future<Output = ()> + Send + 'static>(future: T) -> Ended<()> {
    let (done, ended) = futures_channel::oneshot::channel();
    smol::spawn(futures_util::FutureExt::map(future, move |()| finished(done))).detach();
    ended
}

/// `smol::future::block_on` on the receiving end: blocks until the task has called
/// `finished`, or until it is torn down without having done so, as a task is that panics.
#[verifier::external_body]
fn smol_wait(ended: Ended<()>) -> Result<(), Dropped> {
    smol::future::block_on(ended)
}

/// The process-wide runtime of `smol`. Each instance waits for its own tasks only.
pub struct SmolExecutor {
    join_handles: Vec<Ended<()>>,
}

impl Executor for SmolExecutor {
    closed spec fn pending(&self) -> nat {
        self.join_handles@.len()
    }

    fn start() -> (r: Result<Self, StartFailure>)
        ensures
            r is Ok,
    {
        Ok(SmolExecutor { join_handles: Vec::new() })
    }

    fn spawn<T: Future<Output = ()> + Send + 'static>(&mut self, future: T) {
        let handle = smol_spawn(future);
        self.join_handles.push(handle);
    }

    fn join_all(&mut self) -> (r: Result<(), TaskFailure>) {
        let mut join_handles: Vec<Ended<()>> = Vec::new();
        core::mem::swap(&mut self.join_handles, &mut join_handles);
        let total: usize = join_handles.len();
        let mut task: usize = 0;
        while join_handles.len() > 0
            invariant
                self.join_handles@.len() == 0,
                total == old(self).join_handles@.len(),
                task + join_handles@.len() == total,
            decreases join_handles@.len(),
        {
            let handle = join_handles.remove(0);
            match smol_wait(handle) {
                Ok(()) => {},
                Err(_) => {
                    return Err(TaskFailure { task });
                },
            }
            task = task + 1;
        }
        Ok(())
    }
}

/// `smolscale::spawn`: the task goes to the runtime that `smolscale` keeps for the whole
/// process.
#[verifier::external_body]
fn smolscale_spawn<T: Future<Output = ()> + Send + 'static>(future: T) -> async_task::Task<
    (),
    (),
> {
    smolscale::spawn(future)
}

/// `smolscale::block_on` on `async_task::Task::fallible`: blocks until the task has ended;
/// none where it ended without a result, as a task does that panics on the runtime that
/// `smolscale` brings up of its own.
#[verifier::external_body]
fn smolscale_wait(task: async_task::Task<(), ()>) -> Option<()> {
    smolscale::block_on(task.fallible())
}

/// The process-wide runtime of `smolscale`. Each instance waits for its own tasks only.
pub struct SmolScaleExecutor {
    join_handles: Vec<async_task::Task<(), ()>>,
}

impl Executor for SmolScaleExecutor {
    closed spec fn pending(&self) -> nat {
        self.join_handles@.len()
    }

    fn start() -> (r: Result<Self, StartFailure>)
        ensures
            r is Ok,
    {
        Ok(SmolScaleExecutor { join_handles: Vec::new() })
    }

    fn spawn<T: Future<Output = ()> + Send + 'static>(&mut self, future: T) {
        let handle = smolscale_spawn(future);
        self.join_handles.push(handle);
    }

    fn join_all(&mut self) -> (r: Result<(), TaskFailure>) {
        let mut join_handles: Vec<async_task::Task<(), ()>> = Vec::new();
        core::mem::swap(&mut self.join_handles, &mut join_handles);
        let total: usize = join_handles.len();
        let mut task: usize = 0;
        while join_handles.len() > 0
            invariant
                self.join_handles@.len() == 0,
                total == old(self).join_handles@.len(),
                task + join_handles@.len() == total,
            decreases join_handles@.len(),
        {
            let handle = join_handles.remove(0);
            match smolscale_wait(handle) {
                Some(()) => {},
                None => {
                    return Err(TaskFailure { task });
                },
            }
            task = task + 1;
        }
        Ok(())
    }
}

/// `nexosim::dev_hooks::Executor::new`: a pool of so many worker threads. The call panics on
/// a pool of no thread or of more threads than a `usize` has bits.
#[verifier::external_body]
fn simulation_pool(pool_size: usize) -> SimulationPool
    requires
        1 <= pool_size <= usize::BITS,
{
    SimulationPool::new(pool_size)
}

/// `nexosim::dev_hooks::Executor::spawn_and_forget`, on the task under
/// `futures_util::FutureExt::map` and `remote_handle`: the task is queued and does not run
/// before the pool is run; it calls `finished` when it has run to its end, and a panic in it
/// is caught by `remote_handle` and ends it. The handle of `remote_handle` is let go with
/// `forget`, which leaves the task running. What is handed back is the receiving end of
/// `futures_channel::oneshot::channel`.
#[verifier::external_body]
fn simulation_spawn<T: Future<Output = ()> + Send + 'static>(
    pool: &SimulationPool,
    future: T,
) -> Ended<()> {
    let (done, ended) = futures_channel::oneshot::channel();
    let told = futures_util::FutureExt::map(future, move |()| finished(done));
    let (task, handle) = futures_util::FutureExt::remote_handle(told);
    handle.forget();
    pool.spawn_and_forget(task);
    ended
}

/// `nexosim::dev_hooks::Executor::run`: blocks until every queued task has ended or none
/// can go on. The call panics where a task of the pool has panicked; the tasks that
/// `simulation_spawn` queues do not, and nothing else queues a task on a pool of this file.
#[verifier::external_body]
fn simulation_run(pool: &mut SimulationPool) {
    pool.run()
}

/// `futures_channel::oneshot::Receiver::try_recv`: the unit where the task has called
/// `finished`, none where it has not yet, and the error where it was torn down without.
#[verifier::external_body]
fn ended_by_now(ended: &mut Ended<()>) -> Result<Option<()>, Dropped> {
    ended.try_recv()
}

/// The thread pool of `nexosim`, one per instance, with a worker for each processor.
pub struct NexosimExecutor {
    executor: SimulationPool,
    join_handles: Vec<Ended<()>>,
}

impl NexosimExecutor {
    /// The number of workers for a machine with so many processors: one each, as far as
    /// the pool can take them.
    pub open spec fn pool_size_for(cpus: nat) -> nat {
        if cpus <= usize::BITS {
            cpus
        } else {
            usize::BITS as nat
        }
    }

    /// Computes `pool_size_for`.
    pub fn pool_size(cpus: usize) -> (size: usize)
        ensures
            size == Self::pool_size_for(cpus as nat),
    {
        let limit = usize::BITS as usize;
        if cpus <= limit {
            cpus
        } else {
            limit
        }
    }
}

impl Executor for NexosimExecutor {
    closed spec fn pending(&self) -> nat {
        self.join_handles@.len()
    }

    fn start() -> (r: Result<Self, StartFailure>)
        ensures
            r is Ok,
    {
        let size = Self::pool_size(available_cpus());
        Ok(NexosimExecutor { executor: simulation_pool(size), join_handles: Vec::new() })
    }

    fn spawn<T: Future<Output = ()> + Send + 'static>(&mut self, future: T) {
        let handle = simulation_spawn(&self.executor, future);
        self.join_handles.push(handle);
    }

    /// Runs the pool, and then asks of each task whether it has run to its end: one that
    /// has panicked has not, and neither has one that the pool could not go on with.
    fn join_all(&mut self) -> (r: Result<(), TaskFailure>) {
        simulation_run(&mut self.executor);
        let mut join_handles: Vec<Ended<()>> = Vec::new();
        core::mem::swap(&mut self.join_handles, &mut join_handles);
        let total: usize = join_handles.len();
        let mut task: usize = 0;
        while join_handles.len() > 0
            invariant
                self.join_handles@.len() == 0,
                total == old(self).join_handles@.len(),
                task + join_handles@.len() == total,
            decreases join_handles@.len(),
        {
            let mut handle = join_handles.remove(0);
            match ended_by_now(&mut handle) {
                Ok(Some(())) => {},
                _ => {
                    return Err(TaskFailure { task });
                },
            }
            task = task + 1;
        }
        Ok(())
    }
}

} // verus!
