//! Conversions between parsed BVH motion capture, per-joint key frames and
//! the GAV tensor.
//!
//! Every sample is carried as the bit pattern of a single-precision number:
//! the library moves samples and never computes with them.
pub mod bvh;
pub mod clip;
pub mod curve;
pub mod error;
pub mod gav;
pub mod hierarchy;
pub mod hierarchy_laws;
pub mod key_frames;
pub mod label;
pub mod loader;
pub mod math;
pub mod name_map;
pub mod tensor;
