//! DDS security plugins.
pub mod access_control;
