//! Turns a still image and a caption into a looping, shaking animation.
//!
//! The pipeline decodes the image, pads it, burns in an outlined caption,
//! crops jittered frames out of the padded canvas and encodes them as a
//! looping animation.
pub mod canvas;
pub mod caption;
pub mod codec;
pub mod frames;
pub mod pipeline;
