//! Session recommendations for a conference agent: keyword scoring and
//! ranking of a session catalog, the replies its tools send, the
//! configuration values it reads, the memory ballast it grows, and the
//! reading of its memory use out of the process status.

pub mod text;
pub mod ranking;
pub mod sessions;
pub mod replies;
pub mod tools;
pub mod ballast;
pub mod config;
pub mod status;
