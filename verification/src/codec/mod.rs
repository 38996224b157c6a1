//! The wire format of the messages: protocol-buffer encoding.

pub mod lichtgefecht;
pub mod messages;
pub mod schema;
pub mod varint;
pub mod wire;

use vstd::prelude::*;

verus! {

/// The bytes do not hold a well-formed message.
#[derive(Debug, PartialEq, Eq, Structural)]
pub struct WireError {}

} // verus!
