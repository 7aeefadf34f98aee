//! Watermarking of JPEG photos: output sizing, logo placement and the
//! layered settings that drive a batch.

pub mod position;
pub mod resolution;
pub mod config;
pub mod options;
pub mod pipeline;
