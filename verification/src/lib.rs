//! Demosaicing of Bayer-patterned sensor readings.
//!
//! A sensor behind a colour filter array records one colour per pixel. This
//! crate knows which colour was sampled where, expands a one-sample-per-pixel
//! image into a three-channel image, and reconstructs the two missing channels
//! of every pixel from the neighbouring samples.

pub mod bilinear;
pub mod cfa;
pub mod color;
pub mod component;
pub mod convert;
pub mod debayer;
pub mod grid;
pub mod image;
pub mod laws;
pub mod metadata;
pub mod mosaic;
pub mod nearest;
pub mod pattern;
pub mod processor;

pub use cfa::CFA;
pub use color::Color;
pub use component::Component;
pub use debayer::{Debayer, Interpolation};
pub use image::{Gray, Hsv, Image, Kind, Rgb, Sensor};
pub use metadata::Metadata;
pub use pattern::Pattern;
pub use processor::Processor;
