//! The decisions of a minimal HTTP/1.1 server, as pure functions on text:
//! which request lines are accepted, why the others are refused, and what is
//! sent back.

pub mod connection;
pub mod request;
pub mod response;
pub mod text;
