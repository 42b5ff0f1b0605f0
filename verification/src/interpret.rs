use vstd::prelude::*;

verus! {

/// The input and output of an inference step.
pub struct Tensor {
    pub temp: u32,
}

/// Why an inference step failed.
#[derive(Debug, Clone, PartialEq, Eq)]
pub enum InferenceError {
    Failed(String),
}

/// Something that runs a model on a tensor.
pub trait ImageProcessor {
    fn infer_with_model(&mut self, cam: Tensor) -> Result<Tensor, InferenceError>;
}

}
