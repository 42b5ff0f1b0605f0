use vstd::prelude::*;
use crate::camera::boxed_str;

verus! {

/// Why a camera could not be built.
#[derive(Debug, Clone, PartialEq, Eq)]
pub enum CameraBuildError {
    /// No video device index was given.
    MissingVideoIndex,
}

/// The key code of `c`, as a `char` to `i32` conversion gives it.
pub open spec fn key_code(c: char) -> i32 {
    (c as u32) as i32
}

/// Settings for opening a camera with an optional preview window and a quit
/// key.
pub struct CameraBuilder {
    video_idx: Option<i32>,
    display_window: Option<Box<str>>,
    quit_key: Option<i32>,
}

impl CameraBuilder {
    /// The video device index, if set.
    pub closed spec fn video_index(&self) -> Option<i32> {
        self.video_idx
    }

    /// The preview window name, if set.
    pub closed spec fn window_name(&self) -> Option<Seq<char>> {
        match self.display_window {
            Some(name) => Some(name@),
            None => None,
        }
    }

    /// The key code that quits, if set.
    pub closed spec fn quit_code(&self) -> Option<i32> {
        self.quit_key
    }

    /// Nothing set.
    pub fn new() -> (r: Self)
        ensures
            r.video_index() is None,
            r.window_name() is None,
            r.quit_code() is None,
    {
        CameraBuilder { video_idx: None, display_window: None, quit_key: None }
    }

    /// Sets the video device index.
    pub fn video_idx(self, idx: i32) -> (r: Self)
        ensures
            r.video_index() == Some(idx),
            r.window_name() == self.window_name(),
            r.quit_code() == self.quit_code(),
    {
        let mut b = self;
        b.video_idx = Some(idx);
        b
    }

    /// Sets the name of the preview window.
    pub fn display_window(self, name: &str) -> (r: Self)
        ensures
            r.video_index() == self.video_index(),
            r.window_name() == Some(name@),
            r.quit_code() == self.quit_code(),
    {
        let mut b = self;
        b.display_window = Some(boxed_str(name));
        b
    }

    /// Sets the key that quits.
    pub fn set_quit_key(self, char_c: char) -> (r: Self)
        ensures
            r.video_index() == self.video_index(),
            r.window_name() == self.window_name(),
            r.quit_code() == Some(key_code(char_c)),
    {
        let mut b = self;
        b.quit_key = Some(char_c as u32 as i32);
        b
    }

    /// A copy of the preview window name, if set.
    pub fn window(&self) -> (r: Option<String>)
        ensures
            r matches Some(s) ==> self.window_name() == Some(s@),
            r is None ==> self.window_name() is None,
    {
        match &self.display_window {
            Some(name) => {
                let s: &str = &**name;
                Some(s.to_owned())
            },
            None => None,
        }
    }

    /// The device index and quit key code the camera is opened with: the index
    /// must have been set; the quit key defaults to `q`.
    pub fn resolved_settings(&self) -> (r: Result<(i32, i32), CameraBuildError>)
        ensures
            self.video_index() is None ==> r == Err::<(i32, i32), CameraBuildError>(
                CameraBuildError::MissingVideoIndex,
            ),
            self.video_index() matches Some(idx) ==> r == Ok::<(i32, i32), CameraBuildError>(
                (
                    idx,
                    match self.quit_code() {
                        Some(k) => k,
                        None => key_code('q'),
                    },
                ),
            ),
    {
        let idx: i32 = match self.video_idx {
            Some(i) => i,
            None => {
                return Err(CameraBuildError::MissingVideoIndex);
            },
        };
        let quit: i32 = match self.quit_key {
            Some(f) => f,
            None => 'q' as u32 as i32,
        };
        Ok((idx, quit))
    }
}

}
