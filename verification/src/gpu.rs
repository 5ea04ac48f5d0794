//! The device side: kernel texts, dispatch planning and memory accounting.

pub mod arena;
pub mod arith;
pub mod attend;
pub mod attend_bounds;
pub mod conv_steps;
pub mod convolution;
pub mod counts;
pub mod decoder;
pub mod decoder_laws;
pub mod decoder_steps;
pub mod device;
pub mod device_laws;
pub mod elementwise;
pub mod encoder;
pub mod encoder_laws;
pub mod gemm_laws;
pub mod gemm_source;
pub mod htdemucs;
pub mod kernels;
pub mod layout;
pub mod load_bounds;
pub mod loader;
pub mod loader_laws;
pub mod normalise;
pub mod pass;
pub mod pass_bounds;
pub mod middle_laws;
pub mod pass_laws;
pub mod pipelines;
pub mod probe;
pub mod probe_laws;
pub mod recorder;
pub mod recurrent;
pub mod schedule;
pub mod score;
pub mod shaders;
pub mod shapes;
pub mod spectral;
pub mod stack_laws;
pub mod stage_bounds;
pub mod stages;
pub mod tensor;
pub mod timing;
pub mod timing_laws;
pub mod transformer;
pub mod transformer_laws;
pub mod transformer_steps;
pub mod upsample;
pub mod weights;
pub mod wgsl;
