# camera_merger

A multi-camera capture and object-detection pipeline. Every camera named in
`CamConfig.toml` is opened, its frames are shown and routed through an event
server to an inference worker that runs an ONNX detection model on the frames
of all cameras.

The crate is split in two:

- `src/` is a library verified with Verus. It holds the logic of the
  pipeline with its contracts and proofs: decoding device numbers from device
  paths (`support`), the camera list (`camera_config`), the high-resolution
  stopwatch and its statistics (`profile`, `hrt`), latency histograms
  (`hist`), the pixel-major to channel-major layout change of camera images
  (`pixel`), per-stage profilers of the predictor (`tensor_predictor`), the
  channel registry (`messaging`), camera and receiver settings
  (`camera`, `cam_handler`, `camera_builder`, `image_receiver_builder`) and the
  decisions of the worker loops (`sync`, `control`).
- `app/` is the program around it: reading the configuration and label files,
  OpenCV capture and display, model loading and inference with tract and the
  ONNX runtime, worker threads, and plotting histograms.

`tests/` exercises the library on concrete values.

`Cargo.toml` names `kstring` although no file uses it: it holds that crate,
which tract's dependencies pull in, at a release that builds with the Rust
toolchain the crate is built with; later releases ask for a newer compiler.
