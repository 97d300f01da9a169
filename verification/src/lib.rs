//! Broadcast file copy: read each source once and fan identical chunks out to
//! many destinations, after a pre-flight check of every destination that the
//! run would overwrite.
//!
//! The library holds the verified core: the path model and destination
//! resolution, the source enumerator, the overwrite validator, the chunked
//! fan-out engine model, the per-destination channel subscriptions, and the
//! progress accounting. File and terminal I/O, the writer threads, and the
//! retry-publish onto the channel live outside the library.

pub mod channel;
pub mod engine;
pub mod enumerate;
pub mod path_model;
pub mod progress;
pub mod validate;

pub use path_model::PathKind;
