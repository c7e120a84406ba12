//! Verified core of a loopback audio capture pipeline: session format,
//! downmixing, rate conversion to a canonical 16 kHz mono stream, the
//! windowing of that stream into fixed live frames, and the decisions of the
//! acquisition loop and of the capture controls.
pub mod format;
pub mod downmix;
pub mod resample;
pub mod emit;
pub mod pipeline;
pub mod control;
