//! What the decoding engine hands back: an unbounded list of packets and a
//! count of unconsumed trailing bytes, or an opaque failure.
use vstd::prelude::*;

verus! {

/// One decoded packet; the engine puts no bound on the sample's length.
pub struct DecodedPacket {
    pub timestamp: u32,
    pub stream_id: u32,
    pub sample: Vec<u8>,
}

/// A successful decode: the packets in input order and the number of
/// trailing bytes that were not consumed.
pub struct ParseOutcome {
    pub packets: Vec<DecodedPacket>,
    pub remaining: u32,
}

/// The engine could not decode its input; it says nothing more.
#[derive(Clone, Copy, Debug, PartialEq, Eq)]
pub struct ParseError;

} // verus!
