//! Reading and writing RTPS messages.
pub mod message;
