use camera_merger::messaging::{registration_outcome, ChannelID, EventError, EventServer, Frame, Message};
use crossbeam::channel::{bounded, unbounded};

#[test]
fn second_registration_is_refused() {
    let server = EventServer::default();
    let (tx, _rx) = unbounded();
    let (tx2, _rx2) = unbounded();
    assert_eq!(server.register_msg(ChannelID::Interpreter, tx), Ok(()));
    assert_eq!(server.register_msg(ChannelID::Interpreter, tx2), Err(EventError::DuplicateChannel));
}

#[test]
fn send_reaches_only_its_channel() {
    let server = EventServer::default();
    let (tx, rx) = bounded(4);
    let (tx2, rx2) = bounded(4);
    server.register_msg(ChannelID::Camera(0), tx).unwrap();
    server.register_msg(ChannelID::Camera(1), tx2).unwrap();
    let frame = Frame { rows: 1, cols: 1, typ: 0, data: vec![7] };
    server.send(&ChannelID::Camera(1), Message::Frame(frame));
    server.send(&ChannelID::WindowDisplay, Message::Start);
    assert!(rx.try_recv().is_err());
    match rx2.try_recv() {
        Ok(Message::Frame(f)) => assert_eq!(f.data, vec![7]),
        _ => panic!("expected the frame"),
    }
}

#[test]
fn broadcast_reaches_every_channel() {
    let server = EventServer::default();
    let (tx, rx) = unbounded();
    let (tx2, rx2) = unbounded();
    server.register_msg(ChannelID::Interpreter, tx).unwrap();
    server.register_msg(ChannelID::WindowDisplay, tx2).unwrap();
    assert_eq!(server.broadcast(Message::Stop), Ok(()));
    assert!(rx.try_recv().unwrap().is_stop());
    assert!(rx2.try_recv().unwrap().is_stop());
}

#[test]
fn broadcast_to_hung_up_receiver_fails() {
    let server = EventServer::default();
    let (tx, rx) = unbounded();
    server.register_msg(ChannelID::CameraStopper, tx).unwrap();
    drop(rx);
    assert_eq!(server.broadcast(Message::Start), Err(EventError::Disconnected));
}

#[test]
fn registration_outcomes() {
    assert_eq!(registration_outcome(false), Ok(()));
    assert_eq!(registration_outcome(true), Err(EventError::DuplicateChannel));
}

#[test]
fn message_kinds() {
    assert!(Message::Start.is_start());
    assert!(!Message::Start.is_stop());
    assert!(Message::Stop.is_stop());
    let f = Message::Frame(Frame { rows: 0, cols: 0, typ: 0, data: vec![] });
    assert!(!f.is_start() && !f.is_stop());
}
