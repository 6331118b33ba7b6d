//! A harness core for driving an external hardware-simulation toolchain and
//! checking what it printed: the orchestration of its stages, the capture of
//! their output streams, and the validation of that output.
pub mod capture;
pub mod env;
pub mod pipeline;
pub mod sources;
pub mod validate;
