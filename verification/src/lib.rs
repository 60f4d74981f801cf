//! A sampling profiler core for a guest virtual machine.
//!
//! The library aggregates program-counter samples into a report, resolves
//! each sample to a symbolic frame through the guest image's debug records,
//! and serializes the report in the pprof protocol-buffer wire format.
//! The process-wide plumbing (the signal handler, the interval timer and
//! the artifact write) lives outside the library and drives it through the
//! `session` module.

pub mod errors;
pub mod frames;
pub mod pprof;
pub mod resolver;
pub mod session;
pub mod timer;

pub use session::is_profiler_started;
