use packet_marshal::buffer::{CPacket, CParserResult, PACKETS_MAX_SIZE, SAMPLE_MAX_SIZE};
use packet_marshal::engine::{DecodedPacket, ParseError, ParseOutcome};
use packet_marshal::marshal::{
    marshal_outcome, marshal_result, outcome_fits_buffer, sample_fits_slot, to_c_packet,
    STATUS_FAILURE, STATUS_OK, STATUS_TOO_LARGE,
};

fn packet(timestamp: u32, stream_id: u32, sample: &[u8]) -> DecodedPacket {
    DecodedPacket { timestamp, stream_id, sample: sample.to_vec() }
}

/// A buffer whose every byte is set, so that untouched fields are visible.
fn dirty_buffer() -> CParserResult {
    let slot = CPacket { timestamp: 0xAAAA, stream_id: 0xBBBB, sample_len: 7, sample: [0xEE; 20] };
    CParserResult { packets: [slot; 50], packets_len: 33, remaining: 0xCCCC }
}

#[test]
fn empty_outcome_succeeds_with_no_packets() {
    let mut out = CParserResult::zeroed();
    let o = ParseOutcome { packets: Vec::new(), remaining: 0 };
    assert_eq!(marshal_outcome(&o, &mut out), STATUS_OK);
    assert_eq!(out.packets_len, 0);
    assert_eq!(out.remaining, 0);
    assert_eq!(out, CParserResult::zeroed());
}

#[test]
fn fitting_outcome_is_mirrored_field_by_field() {
    let mut out = dirty_buffer();
    let o = ParseOutcome {
        packets: vec![packet(1000, 3, &[1, 2, 3]), packet(2000, 4, &[]), packet(u32::MAX, 9, &[0xFF; 20])],
        remaining: 17,
    };
    assert_eq!(marshal_result(&Ok(o), &mut out), STATUS_OK);
    assert_eq!(out.packets_len, 3);
    assert_eq!(out.remaining, 17);
    let mut first = [0u8; 20];
    first[0] = 1;
    first[1] = 2;
    first[2] = 3;
    assert_eq!(out.packets[0], CPacket { timestamp: 1000, stream_id: 3, sample_len: 3, sample: first });
    assert_eq!(out.packets[1], CPacket { timestamp: 2000, stream_id: 4, sample_len: 0, sample: [0; 20] });
    assert_eq!(out.packets[2], CPacket { timestamp: u32::MAX, stream_id: 9, sample_len: 20, sample: [0xFF; 20] });
    // slots past the last packet keep what they held
    assert_eq!(out.packets[3], dirty_buffer().packets[3]);
    assert_eq!(out.packets[49], dirty_buffer().packets[49]);
}

#[test]
fn engine_failure_leaves_buffer_unchanged() {
    let mut out = dirty_buffer();
    let r: Result<ParseOutcome, ParseError> = Err(ParseError);
    assert_eq!(marshal_result(&r, &mut out), STATUS_FAILURE);
    assert_eq!(out, dirty_buffer());
}

#[test]
fn fifty_one_packets_are_rejected_unwritten() {
    let mut out = dirty_buffer();
    let packets: Vec<DecodedPacket> = (0..51u32).map(|i| packet(i, i, &[i as u8])).collect();
    let o = ParseOutcome { packets, remaining: 5 };
    let status = marshal_result(&Ok(o), &mut out);
    assert_eq!(status, STATUS_TOO_LARGE);
    assert_ne!(status, STATUS_OK);
    assert_ne!(status, STATUS_FAILURE);
    assert_eq!(out, dirty_buffer());
}

#[test]
fn oversized_sample_is_rejected_unwritten() {
    let mut out = dirty_buffer();
    let o = ParseOutcome { packets: vec![packet(1, 2, &[0x5A; 25])], remaining: 0 };
    assert_eq!(marshal_result(&Ok(o), &mut out), STATUS_TOO_LARGE);
    assert_eq!(out, dirty_buffer());
}

#[test]
fn one_oversized_sample_among_many_rejects_the_whole_outcome() {
    let mut out = CParserResult::zeroed();
    let o = ParseOutcome {
        packets: vec![packet(1, 1, &[1]), packet(2, 2, &[0; 21]), packet(3, 3, &[3])],
        remaining: 2,
    };
    assert_eq!(marshal_outcome(&o, &mut out), STATUS_TOO_LARGE);
    assert_eq!(out, CParserResult::zeroed());
}

#[test]
fn full_capacity_outcome_fits() {
    let mut out = CParserResult::zeroed();
    let packets: Vec<DecodedPacket> =
        (0..PACKETS_MAX_SIZE as u32).map(|i| packet(i * 10, i + 1, &[i as u8; SAMPLE_MAX_SIZE])).collect();
    let o = ParseOutcome { packets, remaining: u32::MAX };
    assert_eq!(marshal_outcome(&o, &mut out), STATUS_OK);
    assert_eq!(out.packets_len, 50);
    assert_eq!(out.remaining, u32::MAX);
    for i in 0..50usize {
        assert_eq!(out.packets[i].timestamp, i as u32 * 10);
        assert_eq!(out.packets[i].stream_id, i as u32 + 1);
        assert_eq!(out.packets[i].sample_len, 20);
        assert_eq!(out.packets[i].sample, [i as u8; 20]);
    }
}

#[test]
fn marshaling_twice_into_zeroed_buffers_is_identical() {
    let make = || ParseOutcome { packets: vec![packet(7, 8, &[9, 10]), packet(11, 12, &[13])], remaining: 3 };
    let mut a = CParserResult::zeroed();
    let mut b = CParserResult::zeroed();
    let sa = marshal_outcome(&make(), &mut a);
    let sb = marshal_outcome(&make(), &mut b);
    assert_eq!(sa, sb);
    assert_eq!(a, b);
    assert_eq!(a.packets[0].sample[..3], [9, 10, 0]);
}

#[test]
fn sample_fits_slot_at_the_boundary() {
    assert!(sample_fits_slot(&packet(0, 0, &[])));
    assert!(sample_fits_slot(&packet(0, 0, &[1; 20])));
    assert!(!sample_fits_slot(&packet(0, 0, &[1; 21])));
}

#[test]
fn outcome_fits_buffer_checks_count_and_samples() {
    let ok = ParseOutcome { packets: (0..50).map(|_| packet(0, 0, &[0; 20])).collect(), remaining: 0 };
    assert!(outcome_fits_buffer(&ok));
    let many = ParseOutcome { packets: (0..51).map(|_| packet(0, 0, &[])).collect(), remaining: 0 };
    assert!(!outcome_fits_buffer(&many));
    let long = ParseOutcome { packets: vec![packet(0, 0, &[]), packet(0, 0, &[0; 25])], remaining: 0 };
    assert!(!outcome_fits_buffer(&long));
}

#[test]
fn to_c_packet_copies_and_zero_fills() {
    let c = to_c_packet(&packet(42, 24, &[4, 5, 6, 7]));
    assert_eq!(c.timestamp, 42);
    assert_eq!(c.stream_id, 24);
    assert_eq!(c.sample_len, 4);
    assert_eq!(c.sample[..5], [4, 5, 6, 7, 0]);
    assert!(c.sample[4..].iter().all(|b| *b == 0));
}

#[test]
fn zeroed_buffer_is_all_zero() {
    let z = CParserResult::zeroed();
    assert_eq!(z.packets_len, 0);
    assert_eq!(z.remaining, 0);
    assert!(z.packets.iter().all(|p| *p == CPacket::zeroed()));
    assert_eq!(CPacket::zeroed(), CPacket { timestamp: 0, stream_id: 0, sample_len: 0, sample: [0; 20] });
}
