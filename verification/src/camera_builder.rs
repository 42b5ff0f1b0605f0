use std::sync::Arc;
use vstd::prelude::*;
use crate::camera::boxed_str;
use crate::messaging::EventServer;

verus! {

/// Settings for opening a camera whose frames go to an event server.
pub struct CameraBuilder {
    video_idx: Option<i32>,
    display_window: Option<Box<str>>,
    event_server: Arc<EventServer>,
}

impl Default for CameraBuilder {
    /// No device index, no preview window, and an event server of its own.
    fn default() -> (r: Self)
        ensures
            r.video_index() is None,
            r.window_name() is None,
    {
        CameraBuilder { video_idx: None, display_window: None, event_server: Arc::new(EventServer::default()) }
    }
}

impl CameraBuilder {
    /// The video device index, if set.
    pub closed spec fn video_index(&self) -> Option<i32> {
        self.video_idx
    }

    /// The preview window name, if set.
    pub closed spec fn window_name(&self) -> Option<Seq<char>> {
        match self.display_window {
            Some(name) => Some(name@),
            None => None,
        }
    }

    /// The event server the camera's frames go to.
    pub closed spec fn server(&self) -> Arc<EventServer> {
        self.event_server
    }

    /// Sets the video device index.
    pub fn with_video_idx(self, idx: i32) -> (r: Self)
        ensures
            r.video_index() == Some(idx),
            r.window_name() == self.window_name(),
            r.server() == self.server(),
    {
        let mut b = self;
        b.video_idx = Some(idx);
        b
    }

    /// Records the name of the preview window; the window itself is opened by
    /// the caller.
    pub fn with_display_window(self, name: &str) -> (r: Self)
        ensures
            r.video_index() == self.video_index(),
            r.window_name() == Some(name@),
            r.server() == self.server(),
    {
        let mut b = self;
        b.display_window = Some(boxed_str(name));
        b
    }

    /// Sets the event server the frames go to.
    pub fn with_event_server(self, event_server: Arc<EventServer>) -> (r: Self)
        ensures
            r.video_index() == self.video_index(),
            r.window_name() == self.window_name(),
            r.server() == event_server,
    {
        let mut b = self;
        b.event_server = event_server;
        b
    }

    /// The video device index, if set.
    pub fn video_idx(&self) -> (r: Option<i32>)
        ensures
            r == self.video_index(),
    {
        self.video_idx
    }

    /// A copy of the preview window name, if set.
    pub fn window(&self) -> (r: Option<String>)
        ensures
            r matches Some(s) ==> self.window_name() == Some(s@),
            r is None ==> self.window_name() is None,
    {
        match &self.display_window {
            Some(name) => {
                let s: &str = &**name;
                Some(s.to_owned())
            },
            None => None,
        }
    }

    /// The event server the frames go to.
    pub fn event_server(&self) -> (r: Arc<EventServer>)
        ensures
            r == self.server(),
    {
        self.event_server.clone()
    }
}

}
