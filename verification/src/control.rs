use vstd::prelude::*;
use crate::cam_handler::key_code;
use crate::messaging::Message;

verus! {

/// How many frames a worker holds before it runs inference on all of them.
pub const FRAME_BATCH: usize = 10;

/// Whether the frames held so far make a full batch: more than
/// `FRAME_BATCH` of them.
pub fn batch_ready(buffered: usize) -> (r: bool)
    ensures
        r == (buffered > FRAME_BATCH),
{
    buffered > FRAME_BATCH
}

/// Whether the key code read from a window is the quit key.
pub fn is_quit_key(key: i32, quit: char) -> (r: bool)
    ensures
        r == (key == key_code(quit)),
{
    key == quit as u32 as i32
}

impl Message {
    /// Whether this is the signal to start.
    pub fn is_start(&self) -> (r: bool)
        ensures
            r == (*self is Start),
    {
        match self {
            Message::Start => true,
            _ => false,
        }
    }

    /// Whether this is the signal to stop.
    pub fn is_stop(&self) -> (r: bool)
        ensures
            r == (*self is Stop),
    {
        match self {
            Message::Stop => true,
            _ => false,
        }
    }
}

/// Where the inference worker stands: waiting for the start signal, running
/// rounds of inference, or stopped for good.
#[derive(Debug, Clone, Copy, PartialEq, Eq, Structural)]
pub enum WorkerPhase {
    Waiting,
    Running,
    Stopped,
}

/// The worker's next phase after the control message `msg`, or after a round
/// in which no control message arrived (`None`): a waiting worker starts only
/// on `Start`, a running worker stops only on `Stop`, and a stopped worker
/// stays stopped.
pub fn worker_step(phase: WorkerPhase, msg: Option<&Message>) -> (r: WorkerPhase)
    ensures
        phase is Waiting ==> (if msg matches Some(m) && *m is Start {
            r is Running
        } else {
            r is Waiting
        }),
        phase is Running ==> (if msg matches Some(m) && *m is Stop {
            r is Stopped
        } else {
            r is Running
        }),
        phase is Stopped ==> r is Stopped,
{
    match phase {
        WorkerPhase::Waiting => match msg {
            Some(m) => if m.is_start() {
                WorkerPhase::Running
            } else {
                WorkerPhase::Waiting
            },
            None => WorkerPhase::Waiting,
        },
        WorkerPhase::Running => match msg {
            Some(m) => if m.is_stop() {
                WorkerPhase::Stopped
            } else {
                WorkerPhase::Running
            },
            None => WorkerPhase::Running,
        },
        WorkerPhase::Stopped => WorkerPhase::Stopped,
    }
}

/// What the capture loop learned at one stage of a round: whether the frame
/// it read is empty, whether the frame it sent was delivered, or which key
/// the window reported.
#[derive(Debug, Clone, Copy, PartialEq, Eq, Structural)]
pub enum CaptureEvent {
    Read { empty: bool },
    Sent { delivered: bool },
    Key { code: i32 },
}

/// What the capture loop does next: drop the frame and read another, show
/// and send the frame, carry on with the next stage of the round, or leave
/// the loop.
#[derive(Debug, Clone, Copy, PartialEq, Eq, Structural)]
pub enum CaptureAction {
    Skip,
    Show,
    Next,
    Stop,
}

/// The capture loop's decision on `event`: an empty frame is skipped and any
/// other is shown; an undelivered frame, or the quit key `quit`, stops the
/// loop; otherwise the round goes on.
pub fn capture_step(event: CaptureEvent, quit: char) -> (r: CaptureAction)
    ensures
        event matches CaptureEvent::Read { empty } ==> r == (if empty {
            CaptureAction::Skip
        } else {
            CaptureAction::Show
        }),
        event matches CaptureEvent::Sent { delivered } ==> r == (if delivered {
            CaptureAction::Next
        } else {
            CaptureAction::Stop
        }),
        event matches CaptureEvent::Key { code } ==> r == (if code == key_code(quit) {
            CaptureAction::Stop
        } else {
            CaptureAction::Next
        }),
{
    match event {
        CaptureEvent::Read { empty } => if empty {
            CaptureAction::Skip
        } else {
            CaptureAction::Show
        },
        CaptureEvent::Sent { delivered } => if delivered {
            CaptureAction::Next
        } else {
            CaptureAction::Stop
        },
        CaptureEvent::Key { code } => if is_quit_key(code, quit) {
            CaptureAction::Stop
        } else {
            CaptureAction::Next
        },
    }
}

}
