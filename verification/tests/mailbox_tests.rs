use tedge_core::mailbox::Mailbox;
use tedge_core::mailbox::RecvOutcome;
use tedge_core::mailbox::SendOutcome;

fn received<T>(outcome: RecvOutcome<T>) -> T {
    match outcome {
        RecvOutcome::Received(message) => message,
        RecvOutcome::WouldBlock => panic!("expected a message, receiver would block"),
        RecvOutcome::EndOfStream => panic!("expected a message, stream ended"),
    }
}

#[test]
fn single_sender_messages_arrive_in_send_order() {
    let mut mailbox: Mailbox<&str> = Mailbox::new(8);
    assert!(matches!(mailbox.send("m1"), SendOutcome::Sent));
    assert!(matches!(mailbox.send("m2"), SendOutcome::Sent));
    assert!(matches!(mailbox.send("m3"), SendOutcome::Sent));

    assert_eq!(received(mailbox.receive()), "m1");
    assert_eq!(received(mailbox.receive()), "m2");
    assert_eq!(received(mailbox.receive()), "m3");
}

#[test]
fn send_blocks_when_the_queue_is_full() {
    let mut mailbox: Mailbox<u32> = Mailbox::new(2);
    assert!(matches!(mailbox.send(1), SendOutcome::Sent));
    assert!(matches!(mailbox.send(2), SendOutcome::Sent));

    // With queue_capacity = 2, the third send finds the queue full: the
    // message comes back and a runtime suspends the sender instead of
    // dropping it.
    let held = match mailbox.send(3) {
        SendOutcome::WouldBlock(message) => message,
        other => panic!("expected the queue to be full, got {:?}", other),
    };

    // Once the receiver consumes one message, capacity is available again.
    assert_eq!(received(mailbox.receive()), 1);
    assert!(matches!(mailbox.send(held), SendOutcome::Sent));
    assert_eq!(received(mailbox.receive()), 2);
    assert_eq!(received(mailbox.receive()), 3);
}

#[test]
fn receive_suspends_while_senders_are_alive() {
    let mut mailbox: Mailbox<u32> = Mailbox::new(2);
    assert!(matches!(mailbox.receive(), RecvOutcome::WouldBlock));
}

#[test]
fn receive_reports_end_of_stream_only_after_drain() {
    let mut mailbox: Mailbox<u32> = Mailbox::new(2);
    assert!(matches!(mailbox.send(7), SendOutcome::Sent));
    mailbox.drop_sender();

    // The queued message is still delivered after the last sender left.
    assert_eq!(received(mailbox.receive()), 7);
    assert!(matches!(mailbox.receive(), RecvOutcome::EndOfStream));
}

#[test]
fn send_fails_once_the_receiver_is_gone() {
    let mut mailbox: Mailbox<u32> = Mailbox::new(2);
    mailbox.drop_receiver();
    assert!(matches!(mailbox.send(1), SendOutcome::Closed));
}

#[test]
fn cloned_senders_share_the_queue() {
    let mut mailbox: Mailbox<u32> = Mailbox::new(4);
    mailbox.clone_sender();
    assert!(matches!(mailbox.send(1), SendOutcome::Sent));
    mailbox.drop_sender();

    // One sender is still alive: no end of stream yet.
    assert_eq!(received(mailbox.receive()), 1);
    assert!(matches!(mailbox.receive(), RecvOutcome::WouldBlock));

    mailbox.drop_sender();
    assert!(matches!(mailbox.receive(), RecvOutcome::EndOfStream));
}
