//! The bounded transport representation handed to a native caller.
use vstd::prelude::*;

verus! {

/// Number of sample bytes one packet slot can hold.
pub const SAMPLE_MAX_SIZE: usize = 20;

/// Number of packet slots in a result buffer.
pub const PACKETS_MAX_SIZE: usize = 50;

/// One packet in its fixed-size form: `sample_len` leading bytes of `sample`
/// are meaningful, the rest are zero.
#[derive(Clone, Copy, Debug, PartialEq, Eq)]
pub struct CPacket {
    pub timestamp: cty::uint32_t,
    pub stream_id: cty::uint32_t,
    pub sample_len: cty::uint16_t,
    pub sample: [cty::uint8_t; SAMPLE_MAX_SIZE],
}

/// The caller-allocated result of one decoding call: `packets_len` leading
/// slots of `packets` are meaningful.
#[derive(Clone, Copy, Debug, PartialEq, Eq)]
pub struct CParserResult {
    pub packets: [CPacket; PACKETS_MAX_SIZE],
    pub packets_len: cty::uint16_t,
    pub remaining: cty::uint32_t,
}

impl CPacket {
    /// The slot holds a sample within capacity, zero-filled past its length.
    pub open spec fn wf(self) -> bool {
        &&& self.sample_len <= SAMPLE_MAX_SIZE
        &&& forall|j: int| self.sample_len <= j < SAMPLE_MAX_SIZE ==> self.sample[j] == 0
    }

    /// Every field, and every byte of the sample, is zero.
    pub open spec fn is_zero(self) -> bool {
        &&& self.timestamp == 0
        &&& self.stream_id == 0
        &&& self.sample_len == 0
        &&& forall|j: int| 0 <= j < SAMPLE_MAX_SIZE ==> self.sample[j] == 0
    }

    /// A packet with every field zero.
    pub fn zeroed() -> (r: CPacket)
        ensures
            r.is_zero(),
            r.wf(),
    {
        CPacket { timestamp: 0, stream_id: 0, sample_len: 0, sample: [0u8; SAMPLE_MAX_SIZE] }
    }
}

impl CParserResult {
    /// Both capacity limits hold, and every meaningful slot is well formed.
    pub open spec fn wf(self) -> bool {
        &&& self.packets_len <= PACKETS_MAX_SIZE
        &&& forall|i: int| 0 <= i < self.packets_len ==> (#[trigger] self.packets[i]).wf()
    }

    /// Every field of the buffer, every slot included, is zero.
    pub open spec fn is_zero(self) -> bool {
        &&& self.packets_len == 0
        &&& self.remaining == 0
        &&& forall|i: int| 0 <= i < PACKETS_MAX_SIZE ==> (#[trigger] self.packets[i]).is_zero()
    }

    /// A buffer with every field zero, as a host would allocate it.
    pub fn zeroed() -> (r: CParserResult)
        ensures
            r.is_zero(),
            r.wf(),
    {
        let p = CPacket::zeroed();
        CParserResult { packets: [p; PACKETS_MAX_SIZE], packets_len: 0, remaining: 0 }
    }
}

} // verus!
