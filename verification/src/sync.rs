use vstd::prelude::*;

verus! {

/// The state a worker thread waits on before it runs.
#[derive(Debug, Clone, Copy, PartialEq, Eq)]
#[allow(non_camel_case_types)]
pub enum ThreadOperation {
    START,
    IDLE,
    STOP,
}

impl Default for ThreadOperation {
    /// A worker starts out idle.
    fn default() -> (r: Self)
        ensures
            r == ThreadOperation::IDLE,
    {
        ThreadOperation::IDLE
    }
}

impl ThreadOperation {
    /// Whether a waiting worker keeps waiting: only while it is idle; a start
    /// or a stop ends the wait.
    pub fn keeps_waiting(&self) -> (r: bool)
        ensures
            r == (*self == ThreadOperation::IDLE),
    {
        match self {
            ThreadOperation::IDLE => true,
            _ => false,
        }
    }
}

/// Something that can be started and stopped in step with other workers.
pub trait RtSync {
    fn start(&mut self);

    fn stop(&mut self);
}

}
