use tachyobench::mock::{Channel, Received, Sent};

#[test]
fn a_full_channel_suspends_the_sender_until_a_receive() {
    for capacity in [1usize, 2, 3, 8, 100] {
        let mut channel: Channel<u64> = Channel::bounded(capacity);
        for message in 0..capacity as u64 {
            assert_eq!(channel.send(message), Sent::Accepted);
        }
        assert_eq!(channel.len(), capacity);
        assert_eq!(channel.send(777), Sent::Suspended(777));
        assert_eq!(channel.send(777), Sent::Suspended(777));
        assert_eq!(channel.len(), capacity);
        assert_eq!(channel.recv(), Received::Message(0));
        assert_eq!(channel.send(777), Sent::Accepted);
        assert_eq!(channel.send(778), Sent::Suspended(778));
        for message in 1..capacity as u64 {
            assert_eq!(channel.recv(), Received::Message(message));
        }
        assert_eq!(channel.recv(), Received::Message(777));
        assert_eq!(channel.recv(), Received::Suspended);
    }
}

#[test]
fn a_drained_channel_without_senders_stays_closed() {
    let mut channel: Channel<u64> = Channel::bounded(4);
    channel.clone_sender();
    assert_eq!(channel.senders(), 2);
    assert_eq!(channel.send(1), Sent::Accepted);
    assert_eq!(channel.send(2), Sent::Accepted);
    channel.drop_sender();
    assert_eq!(channel.recv(), Received::Message(1));
    channel.drop_sender();
    assert_eq!(channel.senders(), 0);
    assert_eq!(channel.recv(), Received::Message(2));
    for _ in 0..10 {
        assert_eq!(channel.recv(), Received::Closed);
        assert_eq!(channel.len(), 0);
    }
}

#[test]
fn an_empty_channel_with_a_sender_suspends_the_receiver() {
    let mut channel: Channel<u64> = Channel::bounded(1);
    assert_eq!(channel.capacity(), 1);
    assert_eq!(channel.senders(), 1);
    assert_eq!(channel.recv(), Received::Suspended);
    assert_eq!(channel.send(5), Sent::Accepted);
    assert_eq!(channel.recv(), Received::Message(5));
    assert_eq!(channel.recv(), Received::Suspended);
    channel.drop_sender();
    assert_eq!(channel.recv(), Received::Closed);
}

#[test]
fn messages_leave_in_the_order_in_which_they_came() {
    let mut channel: Channel<u64> = Channel::bounded(3);
    let mut received = Vec::new();
    let mut next = 0u64;
    while received.len() < 20 {
        while next < 20 && channel.send(next) == Sent::Accepted {
            next += 1;
        }
        if let Received::Message(message) = channel.recv() {
            received.push(message);
        }
    }
    assert_eq!(received, (0..20).collect::<Vec<u64>>());
}
