use mux_core::codec::{CodecError, DecodedPdu, Pdu};
use mux_core::pollable::TryRecv;
use mux_core::session::{
    ClientSession, MuxNotification, Phase, ReadOutcome, SessionAction, SessionError, SessionEvent,
    SessionState,
};

fn message(serial: u64, ident: u64, data: &[u8]) -> DecodedPdu {
    DecodedPdu { serial, pdu: Pdu { ident, data: data.to_vec() } }
}

fn wire(m: &DecodedPdu) -> Vec<u8> {
    m.pdu.encode(m.serial).unwrap()
}

fn output(tab: usize) -> SessionEvent {
    SessionEvent::Notification(TryRecv::Item(MuxNotification::TabOutput(tab)))
}

fn bytes(b: &[u8]) -> SessionEvent {
    SessionEvent::Read(ReadOutcome::Bytes(b.to_vec()))
}

fn reading_session() -> ClientSession {
    let mut session = ClientSession::new();
    session.run(&vec![
        SessionEvent::Outbound(TryRecv::Empty),
        SessionEvent::Notification(TryRecv::Empty),
        SessionEvent::Ready { transport_readable: true, read_buffered: false },
    ]);
    assert_eq!(session.phase(), Phase::Reading);
    session
}

#[test]
fn new_session_starts_by_draining_outbound() {
    let session = ClientSession::new();
    assert_eq!(session.phase(), Phase::Outbound);
    assert_eq!(session.state(), SessionState::Multiplexing);
    assert_eq!(session.error(), None);
    assert!(session.is_open());
    assert!(session.read_buffer().is_empty());
    assert!(session.pending().is_empty());
}

#[test]
fn outbound_messages_are_written_in_order() {
    let a = message(1, 10, b"first");
    let b = message(2, 11, b"second");
    let mut session = ClientSession::new();
    let actions = session.run(&vec![
        SessionEvent::Outbound(TryRecv::Item(a.clone())),
        SessionEvent::Written(true),
        SessionEvent::Outbound(TryRecv::Item(b.clone())),
        SessionEvent::Written(true),
        SessionEvent::Outbound(TryRecv::Empty),
        SessionEvent::Notification(TryRecv::Empty),
    ]);
    assert_eq!(
        actions,
        vec![
            SessionAction::Write(wire(&a)),
            SessionAction::RecvOutbound,
            SessionAction::Write(wire(&b)),
            SessionAction::RecvOutbound,
            SessionAction::RecvNotification,
            SessionAction::Wait,
        ]
    );
    assert_eq!(session.phase(), Phase::Waiting);
    assert_eq!(session.state(), SessionState::Multiplexing);
}

#[test]
fn written_bytes_differ_from_the_body() {
    let a = message(1, 10, b"first");
    let mut session = ClientSession::new();
    let actions = session.step(&SessionEvent::Outbound(TryRecv::Item(a.clone())));
    assert_eq!(actions.len(), 1);
    match &actions[0] {
        SessionAction::Write(b) => {
            assert_eq!(b.len(), 20 + 5);
            assert_ne!(b, &a.pdu.data);
            assert_eq!(&b[20..], b"first");
        }
        other => panic!("unexpected action {:?}", other),
    }
}

#[test]
fn one_message_and_three_more_bytes() {
    let m = message(9, 3, b"payload");
    let mut input = wire(&m);
    input.extend_from_slice(&[0, 0, 0]);
    let mut session = reading_session();
    let actions = session.step(&bytes(&input));
    assert_eq!(actions, vec![SessionAction::Dispatch(m), SessionAction::Read]);
    assert_eq!(session.read_buffer(), &vec![0u8, 0, 0]);
    assert_eq!(session.state(), SessionState::Multiplexing);
    assert_eq!(session.error(), None);
    let actions = session.step(&SessionEvent::Read(ReadOutcome::WouldBlock));
    assert_eq!(actions, vec![SessionAction::RecvOutbound]);
    assert_eq!(session.read_buffer(), &vec![0u8, 0, 0]);
    assert_eq!(session.phase(), Phase::Outbound);
}

#[test]
fn dropped_producer_closes_the_session() {
    let mut session = ClientSession::new();
    session.run(&vec![
        SessionEvent::Outbound(TryRecv::Empty),
        SessionEvent::Notification(TryRecv::Empty),
    ]);
    assert_eq!(session.phase(), Phase::Waiting);
    let actions = session.run(&vec![
        SessionEvent::Ready { transport_readable: false, read_buffered: false },
        SessionEvent::Outbound(TryRecv::Disconnected),
    ]);
    assert_eq!(
        actions,
        vec![SessionAction::RecvOutbound, SessionAction::Close(SessionError::OutboundDisconnected)]
    );
    assert_eq!(session.state(), SessionState::Closed);
    assert_eq!(session.error(), Some(SessionError::OutboundDisconnected));
    assert!(!session.is_open());
}

#[test]
fn repeated_notifications_give_one_push() {
    let mut session = ClientSession::new();
    let mut events = vec![SessionEvent::Outbound(TryRecv::Empty)];
    for _ in 0..5 {
        events.push(output(4));
    }
    events.push(SessionEvent::Notification(TryRecv::Empty));
    let actions = session.run(&events);
    let pushes: Vec<&SessionAction> =
        actions.iter().filter(|a| matches!(a, SessionAction::SchedulePush(_))).collect();
    assert_eq!(pushes, vec![&SessionAction::SchedulePush(4)]);
    assert_eq!(actions.last(), Some(&SessionAction::Wait));
    assert_eq!(actions.len(), 1 + 5 + 1 + 1);
    assert!(session.pending().is_empty());
}

#[test]
fn notifications_coalesce_in_order_of_first_arrival() {
    let mut session = ClientSession::new();
    session.step(&SessionEvent::Outbound(TryRecv::Empty));
    for tab in [3usize, 1, 3, 2, 1, 3] {
        assert_eq!(session.step(&output(tab)), vec![SessionAction::RecvNotification]);
    }
    assert_eq!(session.pending(), &vec![3usize, 1, 2]);
    let actions = session.step(&SessionEvent::Notification(TryRecv::Empty));
    assert_eq!(
        actions,
        vec![
            SessionAction::SchedulePush(3),
            SessionAction::SchedulePush(1),
            SessionAction::SchedulePush(2),
            SessionAction::Wait,
        ]
    );
    assert!(session.pending().is_empty());
}

#[test]
fn each_cycle_pushes_again() {
    let mut session = ClientSession::new();
    let cycle = vec![
        SessionEvent::Outbound(TryRecv::Empty),
        output(8),
        output(8),
        SessionEvent::Notification(TryRecv::Empty),
        SessionEvent::Ready { transport_readable: false, read_buffered: false },
    ];
    let first = session.run(&cycle);
    let second = session.run(&cycle);
    assert_eq!(first, second);
    assert_eq!(
        first,
        vec![
            SessionAction::RecvNotification,
            SessionAction::RecvNotification,
            SessionAction::RecvNotification,
            SessionAction::SchedulePush(8),
            SessionAction::Wait,
            SessionAction::RecvOutbound,
        ]
    );
}

#[test]
fn split_message_is_reassembled() {
    let m = message(21, 5, b"split across reads");
    let w = wire(&m);
    for k in 1..w.len() {
        let mut split = reading_session();
        let first = split.step(&bytes(&w[..k]));
        assert_eq!(first, vec![SessionAction::Read]);
        assert_eq!(split.read_buffer(), &w[..k].to_vec());
        let second = split.step(&bytes(&w[k..]));
        let mut whole = reading_session();
        let at_once = whole.step(&bytes(&w));
        assert_eq!(second, at_once);
        assert_eq!(at_once, vec![SessionAction::Dispatch(m.clone()), SessionAction::Read]);
        assert!(split.read_buffer().is_empty());
        assert!(whole.read_buffer().is_empty());
    }
}

#[test]
fn several_messages_in_one_read() {
    let a = message(1, 1, b"a");
    let b = message(2, 2, b"");
    let c = message(3, 3, b"ccc");
    let mut input = wire(&a);
    input.extend(wire(&b));
    input.extend(wire(&c));
    let mut session = reading_session();
    let actions = session.step(&bytes(&input));
    assert_eq!(
        actions,
        vec![
            SessionAction::Dispatch(a),
            SessionAction::Dispatch(b),
            SessionAction::Dispatch(c),
            SessionAction::Read,
        ]
    );
}

#[test]
fn malformed_bytes_close_after_good_messages() {
    let a = message(1, 1, b"a");
    let mut input = wire(&a);
    input.extend_from_slice(&[0, 0, 0, 3, 9, 9]);
    let mut session = reading_session();
    let actions = session.step(&bytes(&input));
    assert_eq!(
        actions,
        vec![
            SessionAction::Dispatch(a),
            SessionAction::Close(SessionError::Codec(CodecError::FrameTooShort)),
        ]
    );
    assert_eq!(session.error(), Some(SessionError::Codec(CodecError::FrameTooShort)));
    assert_eq!(session.state(), SessionState::Closed);
}

#[test]
fn oversized_frame_received_closes() {
    let mut session = reading_session();
    let actions = session.step(&bytes(&[0xFF, 0, 0, 0]));
    assert_eq!(
        actions,
        vec![SessionAction::Close(SessionError::Codec(CodecError::FrameTooLarge))]
    );
}

#[test]
fn oversized_outbound_message_closes() {
    let big = message(1, 1, &vec![0u8; mux_core::codec::MAX_DATA_LEN + 1]);
    let mut session = ClientSession::new();
    let actions = session.step(&SessionEvent::Outbound(TryRecv::Item(big)));
    assert_eq!(
        actions,
        vec![SessionAction::Close(SessionError::Codec(CodecError::FrameTooLarge))]
    );
    assert_eq!(session.state(), SessionState::Closed);
}

#[test]
fn failed_write_closes() {
    let mut session = ClientSession::new();
    let actions = session.run(&vec![
        SessionEvent::Outbound(TryRecv::Item(message(1, 1, b"x"))),
        SessionEvent::Written(false),
        SessionEvent::Outbound(TryRecv::Empty),
    ]);
    assert_eq!(actions.len(), 2);
    assert_eq!(actions[1], SessionAction::Close(SessionError::Transport));
    assert_eq!(session.error(), Some(SessionError::Transport));
}

#[test]
fn subscription_disconnect_closes() {
    let mut session = ClientSession::new();
    let actions = session.run(&vec![
        SessionEvent::Outbound(TryRecv::Empty),
        output(1),
        SessionEvent::Notification(TryRecv::Disconnected),
    ]);
    assert_eq!(
        actions,
        vec![
            SessionAction::RecvNotification,
            SessionAction::RecvNotification,
            SessionAction::Close(SessionError::SubscriptionDisconnected),
        ]
    );
    assert_eq!(session.error(), Some(SessionError::SubscriptionDisconnected));
}

#[test]
fn end_of_file_closes() {
    let mut session = reading_session();
    assert_eq!(
        session.step(&SessionEvent::Read(ReadOutcome::EndOfFile)),
        vec![SessionAction::Close(SessionError::EndOfFile)]
    );
    let mut session = reading_session();
    assert_eq!(
        session.step(&bytes(&[])),
        vec![SessionAction::Close(SessionError::EndOfFile)]
    );
}

#[test]
fn failed_read_closes() {
    let mut session = reading_session();
    assert_eq!(
        session.step(&SessionEvent::Read(ReadOutcome::Failed)),
        vec![SessionAction::Close(SessionError::Transport)]
    );
}

#[test]
fn read_ahead_bytes_lead_to_a_read() {
    let mut session = ClientSession::new();
    let actions = session.run(&vec![
        SessionEvent::Outbound(TryRecv::Empty),
        SessionEvent::Notification(TryRecv::Empty),
        SessionEvent::Ready { transport_readable: false, read_buffered: true },
    ]);
    assert_eq!(actions.last(), Some(&SessionAction::Read));
    assert_eq!(session.phase(), Phase::Reading);
}

#[test]
fn wake_without_transport_drains_again() {
    let mut session = ClientSession::new();
    let actions = session.run(&vec![
        SessionEvent::Outbound(TryRecv::Empty),
        SessionEvent::Notification(TryRecv::Empty),
        SessionEvent::Ready { transport_readable: false, read_buffered: false },
    ]);
    assert_eq!(actions.last(), Some(&SessionAction::RecvOutbound));
    assert_eq!(session.phase(), Phase::Outbound);
}

#[test]
fn unexpected_event_closes() {
    let mut session = ClientSession::new();
    let actions = session.step(&SessionEvent::Written(true));
    assert_eq!(actions, vec![SessionAction::Close(SessionError::UnexpectedEvent)]);
    assert_eq!(session.error(), Some(SessionError::UnexpectedEvent));
}

#[test]
fn closed_session_stays_closed() {
    let mut session = ClientSession::new();
    session.step(&SessionEvent::Outbound(TryRecv::Disconnected));
    let again = session.step(&SessionEvent::Outbound(TryRecv::Empty));
    assert_eq!(again, vec![SessionAction::Close(SessionError::OutboundDisconnected)]);
    let run = session.run(&vec![SessionEvent::Outbound(TryRecv::Empty), output(1)]);
    assert!(run.is_empty());
    assert_eq!(session.error(), Some(SessionError::OutboundDisconnected));
}

#[test]
fn run_stops_at_the_closing() {
    let mut session = ClientSession::new();
    let actions = session.run(&vec![
        SessionEvent::Outbound(TryRecv::Disconnected),
        SessionEvent::Outbound(TryRecv::Empty),
        SessionEvent::Notification(TryRecv::Empty),
    ]);
    assert_eq!(actions, vec![SessionAction::Close(SessionError::OutboundDisconnected)]);
}

#[test]
fn run_without_events_does_nothing() {
    let mut session = ClientSession::new();
    assert!(session.run(&Vec::new()).is_empty());
    assert_eq!(session.phase(), Phase::Outbound);
}
