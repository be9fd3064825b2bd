use std::future::Future;
use std::pin::Pin;
use std::sync::atomic::{AtomicU64, Ordering};
use std::sync::Arc;
use std::time::Instant;

use tachyobench::bench::{RunError, Timing, Wiring};
use tachyobench::executor_shims::{
    NexosimExecutor, SmolExecutor, SmolScaleExecutor, TaskFailure, TokioExecutor,
};
use tachyobench::funnel::{measure, scripts, simulate, sweep, FunnelOutcome, FunnelPlan};
use tachyobench::mock::{Channel, Received, Sent};
use tachyobench::result::SampleCount;
use tachyobench::script::{Action, Bumper, Consumer, Producer, Script, Striker};

type Boxed = Pin<Box<dyn Future<Output = ()> + Send + 'static>>;

/// Tasks over the bounded channel of `tokio`, with a count of what the consumers received.
struct CountingWiring {
    received: Arc<AtomicU64>,
}

async fn drive_sender<S: Script>(mut script: S, sender: tokio::sync::mpsc::Sender<u64>) {
    while let Action::Send(message) = script.action() {
        sender.send(message).await.unwrap();
        script.sent();
    }
}

async fn drive_receiver<S: Script>(
    mut script: S,
    mut receiver: tokio::sync::mpsc::Receiver<u64>,
    received: Arc<AtomicU64>,
) {
    while let Action::Recv = script.action() {
        let message = receiver.recv().await;
        if message.is_some() {
            received.fetch_add(1, Ordering::SeqCst);
        }
        script.received(message);
    }
}

impl Wiring for CountingWiring {
    type Job = Boxed;

    fn funnel(&self, capacity: usize, producers: Vec<Producer>, consumer: Consumer) -> Vec<Boxed> {
        let (sender, receiver) = tokio::sync::mpsc::channel(capacity);
        let mut tasks: Vec<Boxed> = Vec::new();
        for producer in producers {
            tasks.push(Box::pin(drive_sender(producer, sender.clone())));
        }
        tasks.push(Box::pin(drive_receiver(consumer, receiver, self.received.clone())));
        tasks
    }

    fn pinball(&self, _capacity: usize, _striker: Striker, _bumper: Bumper) -> Vec<Boxed> {
        Vec::new()
    }
}

#[test]
fn simulated_funnel_delivers_every_message() {
    let plan = FunnelPlan { producers: 4, quota: 1000, capacity: 8 };
    let started = Instant::now();
    let outcome = simulate(&plan);
    let nanos = started.elapsed().as_nanos();
    assert_eq!(outcome, FunnelOutcome { sent: 4000, received: 4000 });
    assert!(nanos > 0);
    let rate = Timing { tasks: 5, messages: outcome.received, nanos }.throughput();
    assert!(matches!(rate, Some(rate) if rate > 0));
}

#[test]
fn simulated_funnel_edge_sizes() {
    assert_eq!(simulate(&FunnelPlan { producers: 0, quota: 10, capacity: 1 }).received, 0);
    assert_eq!(simulate(&FunnelPlan { producers: 3, quota: 0, capacity: 1 }).received, 0);
    assert_eq!(simulate(&FunnelPlan { producers: 1, quota: 1, capacity: 1 }).received, 1);
    assert_eq!(simulate(&FunnelPlan { producers: 7, quota: 13, capacity: 1 }).received, 91);
    assert_eq!(simulate(&FunnelPlan { producers: 7, quota: 13, capacity: 1000 }).received, 91);
}

#[test]
fn funnel_sweep_doubles_the_producers() {
    let plans = sweep();
    let producers: Vec<usize> = plans.iter().map(|plan| plan.producers).collect();
    assert_eq!(producers, vec![1, 2, 4, 8, 16, 32, 64]);
    assert!(plans.iter().all(|plan| plan.quota == 100_000 && plan.capacity == 100));
}

fn measured_funnel<E: tachyobench::executor_shims::Executor>() {
    let wiring = CountingWiring { received: Arc::new(AtomicU64::new(0)) };
    let plan = FunnelPlan { producers: 4, quota: 1000, capacity: 8 };
    let samples = SampleCount::new(3).unwrap();
    let result = measure::<E, CountingWiring>(&wiring, &plan, samples).expect("the funnel runs");
    assert_eq!(result.label(), "funnel");
    assert_eq!(result.parameter(), "4");
    assert_eq!(result.throughput().len(), 3);
    assert!(result.throughput().iter().all(|rate| *rate > 0));
    assert_eq!(wiring.received.load(Ordering::SeqCst), 3 * 4000);
}

#[test]
fn funnel_on_tokio_receives_every_message_in_every_sample() {
    measured_funnel::<TokioExecutor>();
}

#[test]
fn funnel_on_smol_receives_every_message_in_every_sample() {
    measured_funnel::<SmolExecutor>();
}

#[test]
fn funnel_on_smolscale_receives_every_message_in_every_sample() {
    measured_funnel::<SmolScaleExecutor>();
}

#[test]
fn funnel_on_nexosim_receives_every_message_in_every_sample() {
    measured_funnel::<NexosimExecutor>();
}

#[test]
fn a_wiring_with_the_wrong_number_of_tasks_is_refused() {
    struct Lazy;
    impl Wiring for Lazy {
        type Job = Boxed;
        fn funnel(&self, _: usize, _: Vec<Producer>, _: Consumer) -> Vec<Boxed> {
            Vec::new()
        }
        fn pinball(&self, _: usize, _: Striker, _: Bumper) -> Vec<Boxed> {
            Vec::new()
        }
    }
    let plan = FunnelPlan { producers: 2, quota: 5, capacity: 1 };
    let refused = measure::<TokioExecutor, Lazy>(&Lazy, &plan, SampleCount::one());
    assert!(matches!(refused, Err(RunError::Miswired { expected: 3, found: 0 })));
}

#[test]
fn two_runs_of_a_benchmark_share_nothing() {
    let plan = FunnelPlan { producers: 3, quota: 500, capacity: 2 };
    assert_eq!(simulate(&plan), simulate(&plan));
    for _ in 0..2 {
        let wiring = CountingWiring { received: Arc::new(AtomicU64::new(0)) };
        let result = measure::<TokioExecutor, CountingWiring>(&wiring, &plan, SampleCount::one())
            .expect("the funnel runs");
        assert_eq!(result.throughput().len(), 1);
        assert_eq!(wiring.received.load(Ordering::SeqCst), 1500);
    }
}

#[test]
fn a_task_that_fails_ends_the_measurement() {
    struct Faulty;
    impl Wiring for Faulty {
        type Job = Boxed;
        fn funnel(&self, _: usize, producers: Vec<Producer>, _: Consumer) -> Vec<Boxed> {
            let mut tasks: Vec<Boxed> = Vec::new();
            for _ in producers {
                tasks.push(Box::pin(std::future::ready(())));
            }
            tasks.push(Box::pin(async { panic!("the consumer fails on purpose") }));
            tasks
        }
        fn pinball(&self, _: usize, _: Striker, _: Bumper) -> Vec<Boxed> {
            Vec::new()
        }
    }
    let plan = FunnelPlan { producers: 2, quota: 5, capacity: 1 };
    let failed = measure::<TokioExecutor, Faulty>(&Faulty, &plan, SampleCount::one());
    assert!(matches!(failed, Err(RunError::Failed(TaskFailure { task: 2 }))));
}

#[test]
fn plans_know_their_limits() {
    assert!(FunnelPlan { producers: 4, quota: 1000, capacity: 8 }.is_valid());
    assert!(FunnelPlan { producers: 0, quota: u64::MAX, capacity: 1 }.is_valid());
    assert!(!FunnelPlan { producers: 4, quota: 1000, capacity: 0 }.is_valid());
    assert!(!FunnelPlan { producers: 2, quota: u64::MAX, capacity: 1 }.is_valid());
    assert!(!FunnelPlan { producers: usize::MAX, quota: 0, capacity: 1 }.is_valid());
    assert_eq!(FunnelPlan { producers: 4, quota: 1000, capacity: 8 }.messages(), 4000);
}

#[test]
fn every_producer_gets_a_script_with_the_quota() {
    let producers = scripts(&FunnelPlan { producers: 3, quota: 2, capacity: 1 });
    assert_eq!(producers.len(), 3);
    for mut producer in producers {
        assert_eq!(producer.action(), Action::Send(0));
        producer.sent();
        assert_eq!(producer.action(), Action::Send(1));
        producer.sent();
        assert_eq!(producer.action(), Action::Done);
    }
    assert!(scripts(&FunnelPlan { producers: 0, quota: 2, capacity: 1 }).is_empty());
}

#[test]
fn every_message_arrives_once_and_in_the_order_of_its_producer() {
    let plan = FunnelPlan { producers: 4, quota: 25, capacity: 3 };
    let mut producers = scripts(&plan);
    let mut channel: Channel<(usize, u64)> = Channel::bounded(plan.capacity);
    let mut consumer = Consumer::new();
    let mut collected: Vec<(usize, u64)> = Vec::new();
    while consumer.action() == Action::Recv {
        for (name, producer) in producers.iter_mut().enumerate().rev() {
            if let Action::Send(number) = producer.action() {
                if channel.send((name, number)) == Sent::Accepted {
                    producer.sent();
                }
            }
        }
        if producers.iter().all(|producer| producer.action() == Action::Done)
            && channel.senders() > 0
        {
            channel.drop_sender();
        }
        match channel.recv() {
            Received::Message(parcel) => {
                collected.push(parcel);
                consumer.received(Some(parcel.1));
            }
            Received::Suspended => {}
            Received::Closed => consumer.received(None),
        }
    }
    assert_eq!(collected.len(), 100);
    for name in 0..plan.producers {
        let numbers: Vec<u64> =
            collected.iter().filter(|parcel| parcel.0 == name).map(|parcel| parcel.1).collect();
        assert_eq!(numbers, (0..plan.quota).collect::<Vec<u64>>());
    }
}
