//! The DNS wire codec and the responder built on it.

pub mod answer;
pub mod error;
pub mod header;
pub mod question;
pub mod responder;
pub mod types;
pub mod wire;
