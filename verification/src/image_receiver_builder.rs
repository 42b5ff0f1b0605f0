use crossbeam::channel::Receiver;
use std::sync::Arc;
use vstd::prelude::*;
use crate::labels::Labels;
use crate::messaging::{EventServer, Message};

verus! {

/// A crossbeam receiving half of a channel; opaque to proofs.
#[verifier::external_type_specification]
#[verifier::external_body]
#[verifier::reject_recursive_types(T)]
pub struct ExReceiver<T>(Receiver<T>);

/// Settings for the worker that runs inference on the frames of all cameras.
pub struct ImageRecvBuilder {
    sync_recv: Receiver<Message>,
    event_server: Arc<EventServer>,
    frame_receivers: Vec<Receiver<Message>>,
    labels: Arc<Labels>,
}

impl ImageRecvBuilder {
    /// The receiver of the start and stop messages.
    pub closed spec fn sync_receiver(&self) -> Receiver<Message> {
        self.sync_recv
    }

    /// The class names detections are labelled with.
    pub closed spec fn label_set(&self) -> Arc<Labels> {
        self.labels
    }

    /// The event server the worker listens to.
    pub closed spec fn server(&self) -> Arc<EventServer> {
        self.event_server
    }

    /// The receivers of the cameras' frames.
    pub closed spec fn receivers(&self) -> Seq<Receiver<Message>> {
        self.frame_receivers@
    }

    /// Sets the class names.
    pub fn with_labels(self, label: Arc<Labels>) -> (r: Self)
        ensures
            r.label_set() == label,
            r.server() == self.server(),
            r.receivers() == self.receivers(),
            r.sync_receiver() == self.sync_receiver(),
    {
        let mut b = self;
        b.labels = label;
        b
    }

    /// Sets the event server.
    pub fn with_event_server(self, event_server: Arc<EventServer>) -> (r: Self)
        ensures
            r.label_set() == self.label_set(),
            r.server() == event_server,
            r.receivers() == self.receivers(),
            r.sync_receiver() == self.sync_receiver(),
    {
        let mut b = self;
        b.event_server = event_server;
        b
    }

    /// Sets the receivers of the cameras' frames.
    pub fn with_frame_receivers(self, frame_receivers: Vec<Receiver<Message>>) -> (r: Self)
        ensures
            r.label_set() == self.label_set(),
            r.server() == self.server(),
            r.receivers() == frame_receivers@,
            r.sync_receiver() == self.sync_receiver(),
    {
        let mut b = self;
        b.frame_receivers = frame_receivers;
        b
    }
}

}
