//! A registry of active desktop notifications.
//!
//! The registry maps 32-bit identifiers to notification records. New
//! notifications receive the lowest identifier that is not in use; a request
//! may instead name the identifier it wants to occupy, replacing whatever is
//! stored there. Every operation takes the registry by exclusive or shared
//! reference, so a caller that shares one registry between tasks wraps it in
//! a lock and each operation runs as one critical section.

pub mod ids;
pub mod laws;
pub mod notification;
pub mod registry;
