//! The errors of the contract's entry points.
use vstd::prelude::*;
use crate::payload::DecodeError;

verus! {

/// Why an entry point, or a step inside one, failed.
#[derive(Debug)]
pub enum ContractError {
    /// A channel end asked for a protocol version other than this one.
    InvalidIbcChannelVersion { version: String },
    /// A reply came back under an id that no call of this contract uses.
    UnknownReplyId { id: u64 },
    /// A packet's bytes hold no instruction.
    PayloadDecoding { error: DecodeError },
    /// An address of a packet is not an address of this chain.
    InvalidAddress,
    /// The asset of a sent packet is not text.
    InvalidAssetEncoding,
}

} // verus!
