use std::collections::BTreeMap;
use vstd::prelude::*;

verus! {

/// The class names of a detection model, by class id.
#[derive(Debug)]
pub struct Labels {
    pub names: BTreeMap<i16, String>,
}

}
