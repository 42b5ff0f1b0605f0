//! Verified core of a multi-camera capture and inference pipeline: device-name
//! decoding, camera configuration lists, timing profilers and their statistics,
//! latency histograms, pixel layout conversion, the channel registry that
//! routes frames between workers, and the settings and decisions around them.
pub mod support;
pub mod camera_config;
pub mod config;
pub mod labels;
pub mod profile;
pub mod hrt;
pub mod hist;
pub mod pixel;
pub mod interpret;
pub mod tensor_predictor;
pub mod messaging;
pub mod camera;
pub mod cam_handler;
pub mod camera_builder;
pub mod image_receiver_builder;
pub mod sync;
pub mod control;

pub use camera::DisplayWindow;
pub use camera_builder::CameraBuilder;
pub use camera_config::{CameraConfig, CameraConfigError};
pub use config::ConfigReader;
pub use hist::{HistogramError, ProfilerHistogram};
pub use hrt::HrtProfiler;
pub use image_receiver_builder::ImageRecvBuilder;
pub use interpret::ImageProcessor;
pub use labels::Labels;
pub use messaging::{ChannelID, EventServer, Message};
pub use pixel::FromPixel;
pub use profile::{Profile, ProfileError, ProfileStats};
pub use support::decode_dev_number;
pub use sync::{RtSync, ThreadOperation};
pub use tensor_predictor::TensorPredictor;
