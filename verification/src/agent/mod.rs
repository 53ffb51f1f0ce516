//! Working with several models at once: negotiation between their
//! responses, and the bookkeeping of parallel dispatch.

pub mod negotiation;
pub mod parallel;
