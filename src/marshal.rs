//! Copying an engine outcome into a caller-owned result buffer.
//!
//! Capacity policy: an outcome with more packets than the buffer has slots,
//! or with a sample longer than a slot, is rejected as a whole with
//! `STATUS_TOO_LARGE` and the buffer is left exactly as it was. Nothing is
//! ever written past a slot or past the last packet slot.
use vstd::prelude::*;
use crate::buffer::{CPacket, CParserResult, PACKETS_MAX_SIZE, SAMPLE_MAX_SIZE};
use crate::engine::{DecodedPacket, ParseError, ParseOutcome};

verus! {

/// The whole outcome was written.
pub const STATUS_OK: cty::c_int = 0;

/// The engine failed (or, at the native boundary, a pointer was null).
pub const STATUS_FAILURE: cty::c_int = -1;

/// The outcome does not fit the buffer and was rejected unwritten.
pub const STATUS_TOO_LARGE: cty::c_int = -2;

/// The packet's sample fits one slot.
pub open spec fn sample_fits(p: DecodedPacket) -> bool {
    p.sample@.len() <= SAMPLE_MAX_SIZE
}

/// The outcome fits the buffer: not too many packets, no sample too long.
pub open spec fn outcome_fits(o: ParseOutcome) -> bool {
    &&& o.packets@.len() <= PACKETS_MAX_SIZE
    &&& forall|i: int| 0 <= i < o.packets@.len() ==> sample_fits(#[trigger] o.packets@[i])
}

/// A sample of at most one slot, followed by zeros up to the slot's size.
pub open spec fn zero_padded(s: Seq<u8>) -> Seq<u8> {
    s + Seq::new((SAMPLE_MAX_SIZE - s.len()) as nat, |_j: int| 0u8)
}

/// The slot holds exactly the decoded packet.
pub open spec fn mirrors(c: CPacket, p: DecodedPacket) -> bool {
    &&& c.timestamp == p.timestamp
    &&& c.stream_id == p.stream_id
    &&& c.sample_len == p.sample@.len()
    &&& c.sample@ == zero_padded(p.sample@)
}

/// `after` holds the outcome in its leading slots and is `before` elsewhere.
pub open spec fn holds_outcome(after: CParserResult, before: CParserResult, o: ParseOutcome) -> bool {
    &&& after.packets_len == o.packets@.len()
    &&& after.remaining == o.remaining
    &&& forall|i: int| 0 <= i < o.packets@.len() ==> mirrors(#[trigger] after.packets[i], o.packets@[i])
    &&& forall|i: int| o.packets@.len() <= i < PACKETS_MAX_SIZE ==> #[trigger] after.packets[i] == before.packets[i]
}

/// The status and the buffer after marshaling the engine result `r` into a
/// buffer that held `before`.
pub open spec fn marshaled(
    r: Result<ParseOutcome, ParseError>,
    before: CParserResult,
    after: CParserResult,
    status: cty::c_int,
) -> bool {
    match r {
        Err(_) => status == STATUS_FAILURE && after == before,
        Ok(o) => if outcome_fits(o) {
            status == STATUS_OK && holds_outcome(after, before, o)
        } else {
            status == STATUS_TOO_LARGE && after == before
        },
    }
}

/// Whether the packet's sample fits one slot.
pub fn sample_fits_slot(p: &DecodedPacket) -> (r: bool)
    ensures
        r == sample_fits(*p),
{
    p.sample.len() <= SAMPLE_MAX_SIZE
}

/// Whether the whole outcome fits the buffer.
pub fn outcome_fits_buffer(o: &ParseOutcome) -> (r: bool)
    ensures
        r == outcome_fits(*o),
{
    if o.packets.len() > PACKETS_MAX_SIZE {
        return false;
    }
    let mut i: usize = 0;
    while i < o.packets.len()
        invariant
            i <= o.packets@.len(),
            forall|k: int| 0 <= k < i ==> sample_fits(#[trigger] o.packets@[k]),
        decreases o.packets@.len() - i,
    {
        if !sample_fits_slot(&o.packets[i]) {
            return false;
        }
        i += 1;
    }
    true
}

/// The slot form of a packet whose sample fits: fields copied, sample
/// copied and zero-filled to the slot's size.
pub fn to_c_packet(p: &DecodedPacket) -> (r: CPacket)
    requires
        sample_fits(*p),
    ensures
        mirrors(r, *p),
        r.wf(),
{
    let mut c = CPacket::zeroed();
    let n = p.sample.len();
    let mut j: usize = 0;
    while j < n
        invariant
            n == p.sample@.len(),
            n <= SAMPLE_MAX_SIZE,
            j <= n,
            forall|k: int| 0 <= k < j ==> c.sample[k] == p.sample@[k],
            forall|k: int| j <= k < SAMPLE_MAX_SIZE ==> c.sample[k] == 0,
        decreases n - j,
    {
        c.sample[j] = p.sample[j];
        j += 1;
    }
    c.timestamp = p.timestamp;
    c.stream_id = p.stream_id;
    c.sample_len = n as u16;
    assert(c.sample@ =~= zero_padded(p.sample@));
    c
}

/// A slot that mirrors a fitting packet is well formed.
proof fn lemma_mirror_wf(c: CPacket, p: DecodedPacket)
    requires
        sample_fits(p),
        mirrors(c, p),
    ensures
        c.wf(),
{
    assert forall|j: int| c.sample_len <= j < SAMPLE_MAX_SIZE implies c.sample[j] == 0 by {
        assert(c.sample@[j] == zero_padded(p.sample@)[j]);
    }
}

/// Writes a fitting outcome into the buffer: each packet into its slot in
/// order, then the packet count and the remaining-byte count. Slots past
/// the last packet are not touched.
fn write_outcome(o: &ParseOutcome, out: &mut CParserResult)
    requires
        outcome_fits(*o),
    ensures
        holds_outcome(*final(out), *old(out), *o),
        final(out).wf(),
{
    let ghost before = *out;
    let n = o.packets.len();
    let mut i: usize = 0;
    while i < n
        invariant
            n == o.packets@.len(),
            outcome_fits(*o),
            i <= n,
            forall|k: int| 0 <= k < i ==> mirrors(#[trigger] out.packets[k], o.packets@[k]),
            forall|k: int| i <= k < PACKETS_MAX_SIZE ==> #[trigger] out.packets[k] == before.packets[k],
        decreases n - i,
    {
        assert(sample_fits(o.packets@[i as int]));
        out.packets[i] = to_c_packet(&o.packets[i]);
        i += 1;
    }
    out.packets_len = n as u16;
    out.remaining = o.remaining;
    assert forall|k: int| 0 <= k < out.packets_len implies (#[trigger] out.packets[k]).wf() by {
        lemma_mirror_wf(out.packets[k], o.packets@[k]);
    }
}

/// Marshals a successful engine outcome: writes it whole and returns
/// `STATUS_OK` when it fits, else returns `STATUS_TOO_LARGE` and leaves the
/// buffer as it was.
pub fn marshal_outcome(o: &ParseOutcome, out: &mut CParserResult) -> (status: cty::c_int)
    ensures
        marshaled(Ok(*o), *old(out), *final(out), status),
        status == STATUS_OK ==> final(out).wf(),
{
    if outcome_fits_buffer(o) {
        write_outcome(o, out);
        STATUS_OK
    } else {
        STATUS_TOO_LARGE
    }
}

/// Marshals what the engine returned: a failure gives `STATUS_FAILURE` and
/// an untouched buffer; an outcome is handled as `marshal_outcome` does.
pub fn marshal_result(r: &Result<ParseOutcome, ParseError>, out: &mut CParserResult) -> (status: cty::c_int)
    ensures
        marshaled(*r, *old(out), *final(out), status),
        status == STATUS_OK ==> final(out).wf(),
{
    match r {
        Ok(o) => marshal_outcome(o, out),
        Err(_) => STATUS_FAILURE,
    }
}

/// An outcome with no packets and no remaining bytes (what the engine gives
/// for empty input) is marshaled with success, a packet count of zero and
/// every slot left as it was.
pub proof fn lemma_empty_outcome_succeeds(
    o: ParseOutcome,
    before: CParserResult,
    after: CParserResult,
    status: cty::c_int,
)
    requires
        o.packets@.len() == 0,
        o.remaining == 0,
        marshaled(Ok(o), before, after, status),
    ensures
        status == STATUS_OK,
        after.packets_len == 0,
        after.remaining == 0,
        after.packets == before.packets,
{
    broadcast use vstd::array::group_array_axioms;
    assert(after.packets =~= before.packets);
}

/// An outcome that fits is marshaled with success, and the buffer mirrors
/// it field by field: counts copied, each packet's timestamp, stream and
/// sample copied, and the sample slot zero-filled past the sample.
pub proof fn lemma_fitting_outcome_mirrored(
    o: ParseOutcome,
    before: CParserResult,
    after: CParserResult,
    status: cty::c_int,
)
    requires
        outcome_fits(o),
        marshaled(Ok(o), before, after, status),
    ensures
        status == STATUS_OK,
        after.packets_len == o.packets@.len(),
        after.remaining == o.remaining,
        forall|i: int| 0 <= i < o.packets@.len() ==> {
            &&& (#[trigger] after.packets[i]).timestamp == o.packets@[i].timestamp
            &&& after.packets[i].stream_id == o.packets@[i].stream_id
            &&& after.packets[i].sample_len == o.packets@[i].sample@.len()
        },
        forall|i: int, j: int| 0 <= i < o.packets@.len() && 0 <= j < SAMPLE_MAX_SIZE ==>
            #[trigger] after.packets[i].sample[j] == if j < o.packets@[i].sample@.len() {
                o.packets@[i].sample@[j]
            } else {
                0u8
            },
{
    assert forall|i: int, j: int| 0 <= i < o.packets@.len() && 0 <= j < SAMPLE_MAX_SIZE implies
        #[trigger] after.packets[i].sample[j] == if j < o.packets@[i].sample@.len() {
            o.packets@[i].sample@[j]
        } else {
            0u8
        } by {
        assert(mirrors(after.packets[i], o.packets@[i]));
        assert(after.packets[i].sample@[j] == zero_padded(o.packets@[i].sample@)[j]);
    }
}

/// When the engine fails, the status is `STATUS_FAILURE` and the buffer is
/// exactly as it was.
pub proof fn lemma_engine_failure_leaves_buffer(
    e: ParseError,
    before: CParserResult,
    after: CParserResult,
    status: cty::c_int,
)
    requires
        marshaled(Err(e), before, after, status),
    ensures
        status == STATUS_FAILURE,
        after == before,
{
}

/// An outcome with too many packets, or with a sample longer than a slot,
/// is rejected with `STATUS_TOO_LARGE`, distinct from every other status,
/// and the buffer is exactly as it was.
pub proof fn lemma_oversized_outcome_rejected(
    o: ParseOutcome,
    before: CParserResult,
    after: CParserResult,
    status: cty::c_int,
)
    requires
        o.packets@.len() > PACKETS_MAX_SIZE || exists|i: int|
            0 <= i < o.packets@.len() && (#[trigger] o.packets@[i]).sample@.len() > SAMPLE_MAX_SIZE,
        marshaled(Ok(o), before, after, status),
    ensures
        status == STATUS_TOO_LARGE,
        status != STATUS_OK,
        status != STATUS_FAILURE,
        after == before,
{
}

/// Marshaling the same engine result twice, each time into a freshly zeroed
/// buffer, gives the same status and identical buffers.
pub proof fn lemma_marshal_idempotent(
    r: Result<ParseOutcome, ParseError>,
    before1: CParserResult,
    after1: CParserResult,
    status1: cty::c_int,
    before2: CParserResult,
    after2: CParserResult,
    status2: cty::c_int,
)
    requires
        before1.is_zero(),
        before2.is_zero(),
        marshaled(r, before1, after1, status1),
        marshaled(r, before2, after2, status2),
    ensures
        status1 == status2,
        after1 == after2,
{
    broadcast use vstd::array::group_array_axioms;
    assert forall|i: int| 0 <= i < PACKETS_MAX_SIZE implies #[trigger] before1.packets[i] == before2.packets[i] by {
        assert(before1.packets[i].sample =~= before2.packets[i].sample);
    }
    assert(before1.packets =~= before2.packets);
    if let Ok(o) = r {
        if outcome_fits(o) {
            assert forall|i: int| 0 <= i < PACKETS_MAX_SIZE implies #[trigger] after1.packets[i] == after2.packets[i] by {
                if i < o.packets@.len() {
                    assert(mirrors(after1.packets[i], o.packets@[i]));
                    assert(mirrors(after2.packets[i], o.packets@[i]));
                    assert(after1.packets[i].sample =~= after2.packets[i].sample);
                }
            }
            assert(after1.packets =~= after2.packets);
        }
    }
}

} // verus!
