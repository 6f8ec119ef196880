//! RTPS message framing, submessage flag handling and the built-in access
//! control plugin of a DDS implementation, with their contracts proved.
use vstd::prelude::*;

pub mod endian;
pub mod structure;
pub mod submessages;
pub mod serialization;
pub mod security;

verus! {
}
