use camera_merger::control::{capture_step, worker_step, CaptureAction, CaptureEvent, WorkerPhase};
use camera_merger::messaging::{Frame, Message};

fn frame() -> Message {
    Message::Frame(Frame { rows: 1, cols: 1, typ: 0, data: vec![0] })
}

#[test]
fn waiting_worker_starts_only_on_start() {
    assert_eq!(worker_step(WorkerPhase::Waiting, None), WorkerPhase::Waiting);
    assert_eq!(worker_step(WorkerPhase::Waiting, Some(&Message::Stop)), WorkerPhase::Waiting);
    assert_eq!(worker_step(WorkerPhase::Waiting, Some(&frame())), WorkerPhase::Waiting);
    assert_eq!(worker_step(WorkerPhase::Waiting, Some(&Message::Start)), WorkerPhase::Running);
}

#[test]
fn running_worker_stops_only_on_stop() {
    assert_eq!(worker_step(WorkerPhase::Running, None), WorkerPhase::Running);
    assert_eq!(worker_step(WorkerPhase::Running, Some(&Message::Start)), WorkerPhase::Running);
    assert_eq!(worker_step(WorkerPhase::Running, Some(&frame())), WorkerPhase::Running);
    assert_eq!(worker_step(WorkerPhase::Running, Some(&Message::Stop)), WorkerPhase::Stopped);
}

#[test]
fn stopped_worker_stays_stopped() {
    assert_eq!(worker_step(WorkerPhase::Stopped, None), WorkerPhase::Stopped);
    assert_eq!(worker_step(WorkerPhase::Stopped, Some(&Message::Start)), WorkerPhase::Stopped);
}

#[test]
fn capture_decisions() {
    assert_eq!(capture_step(CaptureEvent::Read { empty: true }, 'q'), CaptureAction::Skip);
    assert_eq!(capture_step(CaptureEvent::Read { empty: false }, 'q'), CaptureAction::Show);
    assert_eq!(capture_step(CaptureEvent::Sent { delivered: true }, 'q'), CaptureAction::Next);
    assert_eq!(capture_step(CaptureEvent::Sent { delivered: false }, 'q'), CaptureAction::Stop);
    assert_eq!(capture_step(CaptureEvent::Key { code: 113 }, 'q'), CaptureAction::Stop);
    assert_eq!(capture_step(CaptureEvent::Key { code: -1 }, 'q'), CaptureAction::Next);
    assert_eq!(capture_step(CaptureEvent::Key { code: 120 }, 'q'), CaptureAction::Next);
}
