use tachyobench::script::{Action, Bumper, Consumer, Producer, Script, Striker};

#[test]
fn a_producer_sends_its_quota_and_ends() {
    let mut producer = Producer::new(3);
    let mut sent = Vec::new();
    while let Action::Send(message) = producer.action() {
        sent.push(message);
        producer.sent();
    }
    assert_eq!(sent, vec![0, 1, 2]);
    assert_eq!(producer.action(), Action::Done);
    producer.sent();
    producer.received(Some(9));
    assert_eq!(producer.action(), Action::Done);
    assert_eq!(Producer::new(0).action(), Action::Done);
}

#[test]
fn a_consumer_receives_until_the_channel_is_closed() {
    let mut consumer = Consumer::new();
    assert_eq!(consumer.action(), Action::Recv);
    consumer.received(Some(1));
    consumer.sent();
    assert_eq!(consumer.action(), Action::Recv);
    consumer.received(None);
    assert_eq!(consumer.action(), Action::Done);
    consumer.received(Some(2));
    assert_eq!(consumer.action(), Action::Done);
}

#[test]
fn a_striker_serves_and_waits_in_turn() {
    let mut striker = Striker::new(2);
    assert_eq!(striker.action(), Action::Send(0));
    striker.received(Some(5));
    assert_eq!(striker.action(), Action::Send(0));
    striker.sent();
    assert_eq!(striker.action(), Action::Recv);
    striker.sent();
    assert_eq!(striker.action(), Action::Recv);
    striker.received(Some(0));
    assert_eq!(striker.action(), Action::Send(1));
    striker.sent();
    striker.received(Some(1));
    assert_eq!(striker.action(), Action::Done);
    assert_eq!(Striker::new(0).action(), Action::Done);
}

#[test]
fn a_striker_gives_up_when_its_partner_is_gone() {
    let mut striker = Striker::new(5);
    striker.sent();
    striker.received(None);
    assert_eq!(striker.action(), Action::Done);
}

#[test]
fn a_bumper_returns_every_ball() {
    let mut bumper = Bumper::new();
    assert_eq!(bumper.action(), Action::Recv);
    bumper.received(Some(41));
    assert_eq!(bumper.action(), Action::Send(41));
    bumper.received(Some(42));
    assert_eq!(bumper.action(), Action::Send(41));
    bumper.sent();
    assert_eq!(bumper.action(), Action::Recv);
    bumper.received(None);
    assert_eq!(bumper.action(), Action::Done);
}
