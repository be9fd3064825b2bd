use std::future::Future;
use std::pin::Pin;
use std::sync::atomic::{AtomicU64, Ordering};
use std::sync::Arc;

use tachyobench::bench::{RunError, Wiring};
use tachyobench::executor_shims::{Executor, NexosimExecutor, SmolExecutor, SmolScaleExecutor, TokioExecutor};
use tachyobench::pinball::{measure, rally, simulate, sweep, PinballPlan};
use tachyobench::result::SampleCount;
use tachyobench::script::{Action, Bumper, Consumer, Producer, Script, Striker};

type Boxed = Pin<Box<dyn Future<Output = ()> + Send + 'static>>;

/// Tasks over the bounded channel of `flume`, with a count of the messages that arrived.
struct CountingWiring {
    arrived: Arc<AtomicU64>,
}

async fn play<S: Script>(
    mut script: S,
    sender: flume::Sender<u64>,
    receiver: flume::Receiver<u64>,
    arrived: Arc<AtomicU64>,
) {
    loop {
        match script.action() {
            Action::Send(ball) => {
                sender.send_async(ball).await.unwrap();
                script.sent();
            }
            Action::Recv => {
                let ball = receiver.recv_async().await.ok();
                if ball.is_some() {
                    arrived.fetch_add(1, Ordering::SeqCst);
                }
                script.received(ball);
            }
            Action::Done => break,
        }
    }
}

impl Wiring for CountingWiring {
    type Job = Boxed;

    fn funnel(&self, _: usize, _: Vec<Producer>, _: Consumer) -> Vec<Boxed> {
        Vec::new()
    }

    fn pinball(&self, capacity: usize, striker: Striker, bumper: Bumper) -> Vec<Boxed> {
        let (there_sender, there_receiver) = flume::bounded(capacity);
        let (back_sender, back_receiver) = flume::bounded(capacity);
        vec![
            Box::pin(play(striker, there_sender, back_receiver, self.arrived.clone())),
            Box::pin(play(bumper, back_sender, there_receiver, self.arrived.clone())),
        ]
    }
}

#[test]
fn a_rally_exchanges_two_messages_a_round() {
    assert_eq!(rally(0, 1), 0);
    assert_eq!(rally(1, 1), 2);
    assert_eq!(rally(1000, 1), 2000);
    assert_eq!(rally(1000, 7), 2000);
    assert_eq!(rally(12345, 100), 24690);
}

#[test]
fn a_simulated_game_counts_every_pair() {
    assert_eq!(simulate(&PinballPlan { pairs: 0, rounds: 10, capacity: 1 }), 0);
    assert_eq!(simulate(&PinballPlan { pairs: 5, rounds: 0, capacity: 1 }), 0);
    assert_eq!(simulate(&PinballPlan { pairs: 1, rounds: 10, capacity: 1 }), 20);
    assert_eq!(simulate(&PinballPlan { pairs: 8, rounds: 250, capacity: 3 }), 4000);
}

#[test]
fn pinball_sweep_doubles_the_pairs() {
    let plans = sweep();
    let pairs: Vec<usize> = plans.iter().map(|plan| plan.pairs).collect();
    assert_eq!(pairs, vec![1, 2, 4, 8, 16, 32, 64]);
    assert!(plans.iter().all(|plan| plan.rounds == 100_000 && plan.capacity == 1));
}

fn measured_game<E: Executor>() {
    let wiring = CountingWiring { arrived: Arc::new(AtomicU64::new(0)) };
    let plan = PinballPlan { pairs: 3, rounds: 200, capacity: 1 };
    let samples = SampleCount::new(2).unwrap();
    let result = measure::<E, CountingWiring>(&wiring, &plan, samples).expect("the game runs");
    assert_eq!(result.label(), "pinball");
    assert_eq!(result.parameter(), "3");
    assert_eq!(result.throughput().len(), 2);
    assert_eq!(wiring.arrived.load(Ordering::SeqCst), 2 * 3 * 2 * 200);
}

#[test]
fn pinball_on_tokio_exchanges_two_messages_a_round() {
    measured_game::<TokioExecutor>();
}

#[test]
fn pinball_on_smol_exchanges_two_messages_a_round() {
    measured_game::<SmolExecutor>();
}

#[test]
fn pinball_on_smolscale_exchanges_two_messages_a_round() {
    measured_game::<SmolScaleExecutor>();
}

#[test]
fn pinball_on_nexosim_exchanges_two_messages_a_round() {
    measured_game::<NexosimExecutor>();
}

#[test]
fn a_pair_with_the_wrong_number_of_tasks_is_refused() {
    struct Lonely;
    impl Wiring for Lonely {
        type Job = Boxed;
        fn funnel(&self, _: usize, _: Vec<Producer>, _: Consumer) -> Vec<Boxed> {
            Vec::new()
        }
        fn pinball(&self, _: usize, _: Striker, _: Bumper) -> Vec<Boxed> {
            vec![Box::pin(std::future::ready(()))]
        }
    }
    let plan = PinballPlan { pairs: 2, rounds: 5, capacity: 1 };
    let refused = measure::<TokioExecutor, Lonely>(&Lonely, &plan, SampleCount::one());
    assert!(matches!(refused, Err(RunError::Miswired { expected: 2, found: 1 })));
}

#[test]
fn games_know_their_limits() {
    assert!(PinballPlan { pairs: 3, rounds: 200, capacity: 1 }.is_valid());
    assert!(PinballPlan { pairs: 0, rounds: u64::MAX, capacity: 1 }.is_valid());
    assert!(!PinballPlan { pairs: 3, rounds: 200, capacity: 0 }.is_valid());
    assert!(!PinballPlan { pairs: 1, rounds: u64::MAX, capacity: 1 }.is_valid());
    assert!(!PinballPlan { pairs: usize::MAX, rounds: 0, capacity: 1 }.is_valid());
    assert_eq!(PinballPlan { pairs: 3, rounds: 200, capacity: 1 }.messages(), 1200);
    assert_eq!(PinballPlan { pairs: 0, rounds: u64::MAX, capacity: 1 }.messages(), 0);
}
