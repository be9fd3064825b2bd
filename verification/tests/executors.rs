use std::future::Future;
use std::pin::Pin;
use std::sync::atomic::{AtomicUsize, Ordering};
use std::sync::Arc;
use std::task::{Context, Poll};

use tachyobench::executor_shims::{
    Executor, NexosimExecutor, SmolExecutor, SmolScaleExecutor, TaskFailure, TokioExecutor,
};

/// A task that counts itself and ends.
struct Bump(Arc<AtomicUsize>);

impl Future for Bump {
    type Output = ();

    fn poll(self: Pin<&mut Self>, _cx: &mut Context<'_>) -> Poll<()> {
        self.0.fetch_add(1, Ordering::SeqCst);
        Poll::Ready(())
    }
}

/// A task that ends abnormally.
struct Boom;

impl Future for Boom {
    type Output = ();

    fn poll(self: Pin<&mut Self>, _cx: &mut Context<'_>) -> Poll<()> {
        panic!("task failed on purpose")
    }
}

fn run_counted<E: Executor>(tasks: usize) -> usize {
    let counter = Arc::new(AtomicUsize::new(0));
    let mut executor = E::start().expect("the runtime starts");
    for _ in 0..tasks {
        executor.spawn(Bump(counter.clone()));
    }
    assert_eq!(executor.join_all(), Ok(()));
    counter.load(Ordering::SeqCst)
}

#[test]
fn tokio_runs_every_spawned_task() {
    assert_eq!(run_counted::<TokioExecutor>(25), 25);
}

#[test]
fn smol_runs_every_spawned_task() {
    assert_eq!(run_counted::<SmolExecutor>(25), 25);
}

#[test]
fn smolscale_runs_every_spawned_task() {
    assert_eq!(run_counted::<SmolScaleExecutor>(25), 25);
}

#[test]
fn nexosim_runs_every_spawned_task() {
    assert_eq!(run_counted::<NexosimExecutor>(25), 25);
}

#[test]
fn join_all_covers_tasks_spawned_after_an_earlier_join() {
    let counter = Arc::new(AtomicUsize::new(0));
    let mut executor = TokioExecutor::start().expect("the runtime starts");
    executor.spawn(Bump(counter.clone()));
    assert_eq!(executor.join_all(), Ok(()));
    executor.spawn(Bump(counter.clone()));
    executor.spawn(Bump(counter.clone()));
    assert_eq!(executor.join_all(), Ok(()));
    assert_eq!(counter.load(Ordering::SeqCst), 3);
    assert_eq!(executor.join_all(), Ok(()));
}

#[test]
fn tokio_reports_the_first_failed_task() {
    let counter = Arc::new(AtomicUsize::new(0));
    let mut executor = TokioExecutor::start().expect("the runtime starts");
    executor.spawn(Bump(counter.clone()));
    executor.spawn(Bump(counter.clone()));
    executor.spawn(Boom);
    executor.spawn(Bump(counter.clone()));
    assert_eq!(executor.join_all(), Err(TaskFailure { task: 2 }));
}

fn reports_the_failed_task<E: Executor>() {
    let counter = Arc::new(AtomicUsize::new(0));
    let mut executor = E::start().expect("the runtime starts");
    executor.spawn(Bump(counter.clone()));
    executor.spawn(Boom);
    executor.spawn(Bump(counter.clone()));
    assert_eq!(executor.join_all(), Err(TaskFailure { task: 1 }));
    executor.spawn(Bump(counter.clone()));
    assert_eq!(executor.join_all(), Ok(()));
}

#[test]
fn smol_reports_the_failed_task() {
    reports_the_failed_task::<SmolExecutor>();
}

#[test]
fn smolscale_reports_the_failed_task() {
    reports_the_failed_task::<SmolScaleExecutor>();
}

#[test]
fn nexosim_reports_the_failed_task() {
    reports_the_failed_task::<NexosimExecutor>();
}

#[test]
fn nexosim_reports_a_task_that_cannot_go_on() {
    let mut executor = NexosimExecutor::start().expect("the runtime starts");
    executor.spawn(std::future::ready(()));
    executor.spawn(std::future::pending::<()>());
    assert_eq!(executor.join_all(), Err(TaskFailure { task: 1 }));
}

#[test]
fn an_async_block_is_a_task() {
    let counter = Arc::new(AtomicUsize::new(0));
    let seen = counter.clone();
    let mut executor = TokioExecutor::start().expect("the runtime starts");
    executor.spawn(async move {
        seen.fetch_add(7, Ordering::SeqCst);
    });
    assert_eq!(executor.join_all(), Ok(()));
    assert_eq!(counter.load(Ordering::SeqCst), 7);
}

#[test]
fn the_simulation_pool_has_a_worker_for_each_processor_up_to_its_limit() {
    let limit = usize::BITS as usize;
    assert_eq!(NexosimExecutor::pool_size(1), 1);
    assert_eq!(NexosimExecutor::pool_size(8), 8);
    assert_eq!(NexosimExecutor::pool_size(limit), limit);
    assert_eq!(NexosimExecutor::pool_size(limit + 1), limit);
    assert_eq!(NexosimExecutor::pool_size(usize::MAX), limit);
}

#[test]
fn runtimes_of_one_kind_wait_for_their_own_tasks_only() {
    let first_count = Arc::new(AtomicUsize::new(0));
    let second_count = Arc::new(AtomicUsize::new(0));
    let mut first = SmolExecutor::start().expect("the runtime starts");
    let mut second = SmolExecutor::start().expect("the runtime starts");
    for _ in 0..10 {
        first.spawn(Bump(first_count.clone()));
    }
    for _ in 0..3 {
        second.spawn(Bump(second_count.clone()));
    }
    assert_eq!(second.join_all(), Ok(()));
    assert_eq!(second_count.load(Ordering::SeqCst), 3);
    assert_eq!(first.join_all(), Ok(()));
    assert_eq!(first_count.load(Ordering::SeqCst), 10);
}
