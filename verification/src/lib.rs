//! Core logic of a multipart object upload: partitioning a file into
//! parts the storage service accepts, accounting for the completion
//! manifest, and the event-driven session that drives the protocol.

pub mod partition;
pub mod session;
