//! Account keys and points in time, held as plain values.
use vstd::prelude::*;

verus! {

/// A 32-byte account address, shown as base58 text.
#[derive(Clone, Copy, Debug, PartialEq, Eq, Hash)]
pub struct Pubkey {
    pub bytes: [u8; 32],
}

/// A point in time: seconds since the Unix epoch and the nanoseconds past them.
#[derive(Clone, Copy, Debug, PartialEq, Eq, Structural)]
pub struct Timestamp {
    pub secs: i64,
    pub nanos: u32,
}

} // verus!
