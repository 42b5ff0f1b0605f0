use vstd::prelude::*;

verus! {

/// A boxed copy of `s`, through `Box::<str>::from`.
#[verifier::external_body]
pub(crate) fn boxed_str(s: &str) -> (r: Box<str>)
    ensures
        r@ == s@,
{
    Box::from(s)
}

/// The window a camera's frames are shown in, and the key that closes it.
#[derive(Debug)]
pub struct DisplayWindow {
    pub name: Box<str>,
    pub quit_key: char,
}

impl Default for DisplayWindow {
    /// A window named "Camera", closed with `q`.
    fn default() -> (r: Self)
        ensures
            r.name@ == "Camera"@,
            r.quit_key == 'q',
    {
        DisplayWindow { name: boxed_str("Camera"), quit_key: 'q' }
    }
}

}
