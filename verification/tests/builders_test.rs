use std::sync::Arc;

use camera_merger::cam_handler::{CameraBuildError, CameraBuilder as HandlerBuilder};
use camera_merger::camera::DisplayWindow;
use camera_merger::camera_builder::CameraBuilder;
use camera_merger::control::{batch_ready, is_quit_key};
use camera_merger::messaging::EventServer;
use camera_merger::sync::ThreadOperation;
use camera_merger::TensorPredictor;

#[test]
fn handler_needs_video_index() {
    let b = HandlerBuilder::new().set_quit_key('x');
    assert_eq!(b.resolved_settings(), Err(CameraBuildError::MissingVideoIndex));
}

#[test]
fn handler_quit_key_defaults_to_q() {
    let b = HandlerBuilder::new().video_idx(2).display_window("Test");
    assert_eq!(b.resolved_settings(), Ok((2, 'q' as i32)));
    assert_eq!(b.window(), Some("Test".to_string()));
    let b = b.set_quit_key('x');
    assert_eq!(b.resolved_settings(), Ok((2, 'x' as i32)));
}

#[test]
fn camera_builder_settings() {
    let server = Arc::new(EventServer::default());
    let b = CameraBuilder::default();
    assert_eq!(b.video_idx(), None);
    assert_eq!(b.window(), None);
    let b = b
        .with_video_idx(4)
        .with_display_window("Matthe")
        .with_event_server(server.clone());
    assert_eq!(b.video_idx(), Some(4));
    assert_eq!(b.window(), Some("Matthe".to_string()));
    assert!(Arc::ptr_eq(&b.event_server(), &server));
}

#[test]
fn display_window_default() {
    let w = DisplayWindow::default();
    assert_eq!(&*w.name, "Camera");
    assert_eq!(w.quit_key, 'q');
}

#[test]
fn batches_flush_past_ten_frames() {
    assert!(!batch_ready(10));
    assert!(batch_ready(11));
    assert!(!batch_ready(0));
}

#[test]
fn quit_key_codes() {
    assert!(is_quit_key('q' as i32, 'q'));
    assert!(!is_quit_key(-1, 'q'));
}

#[test]
fn waiting_ends_on_start_or_stop() {
    assert_eq!(ThreadOperation::default(), ThreadOperation::IDLE);
    assert!(ThreadOperation::IDLE.keeps_waiting());
    assert!(!ThreadOperation::START.keeps_waiting());
    assert!(!ThreadOperation::STOP.keeps_waiting());
}

#[test]
fn stage_profiler_is_reused() {
    let mut p = TensorPredictor::default();
    let first = p.start_profiler("MsgInterpreter");
    let second = p.start_profiler("MsgInterpreter");
    assert!(second >= first);
    let _ = p.start_profiler("Other");
    TensorPredictor::record_labels();
}
