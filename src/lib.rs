//! The request-edge rules of a system-records API: the path taxonomy and
//! scope rules that decide what a credential may do, the header stamping of
//! authentication, the guard of the internal namespace, a per-caller rate
//! limiter, and the privacy-filtered JSON form of a system.

pub mod authnz;
pub mod headers;
pub mod internal;
pub mod laws;
pub mod privacy;
pub mod ratelimit;
pub mod system;
pub mod text;
