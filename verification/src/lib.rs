//! The planning core of a GPU source-separation engine.
//!
//! The library decides and the host performs. Here is which kernel runs over which
//! buffer and with which numbers, the text of every kernel, which buffer is recycled
//! when, and what the bytes of a checkpoint or an array file mean. A host owns the
//! device, the files and the floating point; numbers pass through here as bits.

pub mod error;
pub mod gpu;
pub mod npy;
pub mod npy_laws;
pub mod numbers;
pub mod ops;
pub mod paths;
pub mod safetensors;
pub mod safetensors_laws;
pub mod search;
pub mod text;
