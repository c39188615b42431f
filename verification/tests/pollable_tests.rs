use mux_core::pollable::{pollable_channel, PollableChannel, TryRecv};

#[test]
fn new_channel_is_empty_and_connected() {
    let mut c: PollableChannel<u32> = pollable_channel();
    assert_eq!(c.len(), 0);
    assert_eq!(c.senders(), 1);
    assert!(!c.is_ready());
    assert_eq!(c.try_recv(), TryRecv::Empty);
}

#[test]
fn items_come_out_in_order_sent() {
    let mut c: PollableChannel<u32> = pollable_channel();
    for i in 1..=3 {
        assert_eq!(c.send(i), Ok(()));
    }
    assert_eq!(c.len(), 3);
    assert_eq!(c.try_recv(), TryRecv::Item(1));
    assert_eq!(c.try_recv(), TryRecv::Item(2));
    assert_eq!(c.try_recv(), TryRecv::Item(3));
    assert_eq!(c.try_recv(), TryRecv::Empty);
}

#[test]
fn signal_stays_up_until_drained() {
    let mut c: PollableChannel<u32> = pollable_channel();
    c.send(1).unwrap();
    c.send(2).unwrap();
    assert!(c.is_ready());
    c.try_recv();
    assert!(c.is_ready());
    c.try_recv();
    assert!(!c.is_ready());
}

#[test]
fn disconnect_is_seen_after_the_queue_is_drained() {
    let mut c: PollableChannel<u32> = pollable_channel();
    c.send(7).unwrap();
    c.drop_sender();
    assert_eq!(c.senders(), 0);
    assert!(c.is_ready());
    assert_eq!(c.try_recv(), TryRecv::Item(7));
    assert!(c.is_ready());
    assert_eq!(c.try_recv(), TryRecv::Disconnected);
    assert_eq!(c.try_recv(), TryRecv::Disconnected);
}

#[test]
fn send_without_producer_hands_item_back() {
    let mut c: PollableChannel<u32> = pollable_channel();
    c.drop_sender();
    assert_eq!(c.send(4), Err(4));
    assert_eq!(c.len(), 0);
}

#[test]
fn producers_are_counted() {
    let mut c: PollableChannel<u32> = pollable_channel();
    assert!(c.add_sender());
    assert_eq!(c.senders(), 2);
    c.drop_sender();
    assert_eq!(c.try_recv(), TryRecv::Empty);
    c.drop_sender();
    assert_eq!(c.try_recv(), TryRecv::Disconnected);
    c.drop_sender();
    assert_eq!(c.senders(), 0);
}
