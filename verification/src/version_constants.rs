//! The version of the protocol that is spoken.
use vstd::prelude::*;

verus! {

/// The number of the version.
pub const CURRENT_PROTOCOL_VERSION: i32 = 761;

/// The name of the version.
pub const CURRENT_PROTOCOL_VERSION_STRING: &'static str = "1.19.3";

} // verus!
