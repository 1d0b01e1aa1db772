//! The messages that cross between the simulation and the connection tasks.

use vstd::prelude::*;

verus! {

/// One message in either direction. Only `Sync` carries state of the
/// simulation; the other three are kept for signalling and nothing acts on
/// them.
#[derive(Debug, PartialEq, Eq)]
pub enum WSMessages {
    Message(String),
    Connected(Vec<u8>),
    Disconnected(Vec<u8>),
    /// The bytes of one wire record, not yet decoded.
    Sync(Vec<u8>),
}

} // verus!
