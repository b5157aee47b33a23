use ai_hft_architecture::critical_path::ipc_mmap::{
    MmapConsumer, MmapError, MmapFileHeader, MmapProducer, RiskConstraintPayload, MAX_PAYLOADS,
    MMAP_MAGIC, PROTOCOL_VERSION,
};
use ai_hft_architecture::critical_path::wire::{
    decode_header, decode_payload, encode_header, encode_payload, HEADER_SIZE, PAYLOAD_SIZE,
};
use memmap2::{Mmap, MmapMut};

fn sample_payload(seq: u64) -> RiskConstraintPayload {
    let mut reserved_a = [0u64; 32];
    for (i, word) in reserved_a.iter_mut().enumerate() {
        *word = seq.wrapping_mul(0x9E37_79B9_7F4A_7C15).wrapping_add(i as u64);
    }
    RiskConstraintPayload {
        constraint_seq_id: seq,
        max_var_limit: (1_000_000.0f64 + seq as f64).to_bits(),
        max_position_concentration: 0.25f64.to_bits(),
        max_intraday_loss: 500_000.0f64.to_bits(),
        max_leverage: 3.5f64.to_bits(),
        delta_hedge_target: (-1.5f64).to_bits(),
        vega_hedge_target: 2.25f64.to_bits(),
        constraint_timestamp_ns: 1_000_000_000 + seq,
        reserved_a,
    }
}

fn new_producer(max_payloads: usize) -> MmapProducer {
    let size = MmapProducer::required_file_size(max_payloads).expect("size");
    let mmap = MmapMut::map_anon(size).expect("anonymous mapping");
    MmapProducer::new(mmap, max_payloads).expect("producer creation failed")
}

fn into_read_only(producer: MmapProducer) -> Mmap {
    producer.into_mapping().make_read_only().expect("read-only mapping")
}

#[test]
fn test_mmap_roundtrip() {
    let mut producer = new_producer(128);

    let constraint = RiskConstraintPayload {
        constraint_seq_id: 1,
        max_var_limit: 1_000_000.0f64.to_bits(),
        max_position_concentration: 0.25f64.to_bits(),
        max_intraday_loss: 500_000.0f64.to_bits(),
        max_leverage: 3.5f64.to_bits(),
        delta_hedge_target: 0.0f64.to_bits(),
        vega_hedge_target: 0.0f64.to_bits(),
        constraint_timestamp_ns: 1_000_000_000,
        reserved_a: [0; 32],
    };

    let seq_id = producer.write_constraint(&constraint).expect("write failed");
    assert_eq!(seq_id.0, 0);
    producer.flush().expect("flush failed");

    let mut consumer = MmapConsumer::from_producer(producer).expect("consumer creation failed");
    let read_constraint = consumer.read_constraint().expect("read failed");

    assert_eq!(read_constraint.constraint_seq_id, constraint.constraint_seq_id);
    assert_eq!(
        f64::from_bits(read_constraint.max_var_limit),
        f64::from_bits(constraint.max_var_limit)
    );
}

#[test]
fn payload_codec_round_trip() {
    for seq in [0u64, 1, 42, u64::MAX] {
        let p = sample_payload(seq);
        let bytes = encode_payload(&p);
        assert_eq!(bytes.len(), PAYLOAD_SIZE);
        assert_eq!(decode_payload(&bytes), p);
        // Little-endian layout: the sequence ID is in the first eight bytes.
        assert_eq!(&bytes[0..8], &seq.to_le_bytes());
        assert!(bytes[320..].iter().all(|b| *b == 0));
    }
}

#[test]
fn header_codec_round_trip() {
    let mut padding = [0u8; 20];
    for (i, b) in padding.iter_mut().enumerate() {
        *b = i as u8 + 1;
    }
    let h = MmapFileHeader {
        magic: MMAP_MAGIC,
        protocol_version: PROTOCOL_VERSION,
        _reserved_version: 7,
        file_size_bytes: 64 + 512 * 3,
        payload_offset: 64,
        max_payloads: 3,
        _padding: padding,
    };
    let bytes = encode_header(&h);
    assert_eq!(bytes.len(), HEADER_SIZE);
    assert_eq!(&bytes[0..4], &0xDEADBEEFu32.to_le_bytes());
    assert_eq!(decode_header(&bytes), h);
    assert_eq!(MmapConsumer::check_header(&bytes), Ok(h));
}

#[test]
fn header_validation_errors() {
    let good = MmapFileHeader {
        magic: MMAP_MAGIC,
        protocol_version: PROTOCOL_VERSION,
        _reserved_version: 0,
        file_size_bytes: 64 + 512,
        payload_offset: 64,
        max_payloads: 1,
        _padding: [0; 20],
    };
    let bad_magic = MmapFileHeader { magic: 0x1234_5678, protocol_version: 9, ..good };
    assert_eq!(
        MmapConsumer::check_header(&encode_header(&bad_magic)),
        Err(MmapError::MagicMismatch)
    );
    let bad_version = MmapFileHeader { protocol_version: 2, payload_offset: 0, ..good };
    assert_eq!(
        MmapConsumer::check_header(&encode_header(&bad_version)),
        Err(MmapError::VersionMismatch)
    );
    let bad_offset = MmapFileHeader { payload_offset: 128, ..good };
    assert_eq!(
        MmapConsumer::check_header(&encode_header(&bad_offset)),
        Err(MmapError::PayloadAccessViolation)
    );
}

#[test]
fn consumer_reads_every_slot_the_producer_wrote() {
    let mut producer = new_producer(5);
    let payloads: Vec<RiskConstraintPayload> = (10..14).map(sample_payload).collect();
    for (i, p) in payloads.iter().enumerate() {
        assert_eq!(producer.write_constraint(p).unwrap().0, i as u64);
        assert_eq!(producer.is_current_payload_index(), i + 1);
    }
    let mut consumer = MmapConsumer::from_producer(producer).unwrap();
    assert_eq!(consumer.has_max_payloads(), 5);
    for p in &payloads {
        assert_eq!(consumer.read_constraint().unwrap(), *p);
    }
    // Slot 4 was never written: it reads as the all-zero payload.
    let blank = consumer.read_constraint().unwrap();
    assert_eq!(blank.constraint_seq_id, 0);
    assert_eq!(blank.reserved_a, [0; 32]);
    assert_eq!(consumer.is_current_payload_index(), 5);
    assert_eq!(consumer.read_constraint(), Err(MmapError::PayloadIndexOutOfBounds));
    assert_eq!(consumer.is_current_payload_index(), 5);
    // Random access does not move the read position.
    assert_eq!(consumer.read_constraint_at(2).unwrap(), payloads[2]);
    assert_eq!(consumer.read_constraint_at(5), Err(MmapError::PayloadIndexOutOfBounds));
    assert_eq!(consumer.is_current_payload_index(), 5);
    assert_eq!(consumer.seek_to_index(1), Ok(()));
    assert_eq!(consumer.read_constraint().unwrap(), payloads[1]);
    assert_eq!(consumer.seek_to_index(5), Err(MmapError::PayloadIndexOutOfBounds));
    assert_eq!(consumer.is_current_payload_index(), 2);
}

#[test]
fn producer_refuses_when_every_slot_is_written() {
    let mut producer = new_producer(2);
    assert_eq!(producer.write_constraint(&sample_payload(1)).unwrap().0, 0);
    assert_eq!(producer.write_constraint(&sample_payload(2)).unwrap().0, 1);
    assert_eq!(
        producer.write_constraint(&sample_payload(3)),
        Err(MmapError::PayloadIndexOutOfBounds)
    );
    assert_eq!(producer.is_current_payload_index(), 2);
}

#[test]
fn producer_slot_count_bounds() {
    assert_eq!(MmapProducer::required_file_size(0), Err(MmapError::PayloadIndexOutOfBounds));
    assert_eq!(
        MmapProducer::required_file_size(MAX_PAYLOADS + 1),
        Err(MmapError::PayloadIndexOutOfBounds)
    );
    assert_eq!(MmapProducer::required_file_size(1), Ok(64 + 512));
    assert_eq!(MmapProducer::required_file_size(MAX_PAYLOADS), Ok(64 + 512 * 16384));
    let mmap = MmapMut::map_anon(64 + 512).unwrap();
    assert!(matches!(MmapProducer::new(mmap, 0), Err(MmapError::PayloadIndexOutOfBounds)));
}

#[test]
fn producer_refuses_mapping_of_wrong_size() {
    let mmap = MmapMut::map_anon(64 + 512 * 2).unwrap();
    assert!(matches!(MmapProducer::new(mmap, 3), Err(MmapError::MmapCreationFailed)));
}

#[test]
fn producer_lays_out_header_and_clears_region() {
    let size = MmapProducer::required_file_size(3).unwrap();
    let mut mmap = MmapMut::map_anon(size).unwrap();
    mmap[..].fill(0xAB);
    let producer = MmapProducer::new(mmap, 3).unwrap();
    let region = producer.into_mapping();
    let header = decode_header(&region[0..64]);
    assert_eq!(header.magic, MMAP_MAGIC);
    assert_eq!(header.protocol_version, PROTOCOL_VERSION);
    assert_eq!(header.file_size_bytes, size as u64);
    assert_eq!(header.payload_offset, 64);
    assert_eq!(header.max_payloads, 3);
    assert!(region[48..].iter().all(|b| *b == 0));
}

#[test]
fn consumer_refuses_short_or_foreign_region() {
    let short = MmapMut::map_anon(32).unwrap().make_read_only().unwrap();
    assert!(matches!(MmapConsumer::new(short), Err(MmapError::PayloadAccessViolation)));
    let zeroed = MmapMut::map_anon(64 + 512).unwrap().make_read_only().unwrap();
    assert!(matches!(MmapConsumer::new(zeroed), Err(MmapError::MagicMismatch)));
}

#[test]
fn consumer_refuses_slot_beyond_mapping() {
    // A header announcing more slots than the mapping holds.
    let h = MmapFileHeader {
        magic: MMAP_MAGIC,
        protocol_version: PROTOCOL_VERSION,
        _reserved_version: 0,
        file_size_bytes: 64 + 512 * 4,
        payload_offset: 64,
        max_payloads: 4,
        _padding: [0; 20],
    };
    let mut mmap = MmapMut::map_anon(64 + 512).unwrap();
    mmap[0..64].copy_from_slice(&encode_header(&h));
    let consumer = MmapConsumer::new(mmap.make_read_only().unwrap()).unwrap();
    assert!(consumer.read_constraint_at(0).is_ok());
    assert_eq!(consumer.read_constraint_at(1), Err(MmapError::PayloadAccessViolation));
    assert_eq!(consumer.read_constraint_at(4), Err(MmapError::PayloadIndexOutOfBounds));
}

#[test]
fn consumer_opens_a_read_only_copy_of_the_region() {
    let mut producer = new_producer(3);
    let p = sample_payload(5);
    producer.write_constraint(&p).unwrap();
    let consumer = MmapConsumer::new(into_read_only(producer)).unwrap();
    assert_eq!(consumer.has_max_payloads(), 3);
    assert_eq!(consumer.is_current_payload_index(), 0);
    assert_eq!(consumer.read_constraint_at(0), Ok(p));
    assert_eq!(consumer.read_constraint_at(1).unwrap().constraint_seq_id, 0);
    assert_eq!(consumer.read_constraint_at(3), Err(MmapError::PayloadIndexOutOfBounds));
}

#[test]
fn producer_hands_out_consecutive_slots_then_refuses() {
    let mut producer = new_producer(3);
    for k in 0..6u64 {
        let result = producer.write_constraint(&sample_payload(100 + k));
        if k < 3 {
            assert_eq!(result.unwrap().0, k);
        } else {
            assert_eq!(result, Err(MmapError::PayloadIndexOutOfBounds));
        }
        assert_eq!(producer.is_current_payload_index() as u64, (k + 1).min(3));
    }
    producer.flush().unwrap();
    assert_eq!(producer.is_current_payload_index(), 3);
    let consumer = MmapConsumer::from_producer(producer).unwrap();
    for k in 0..3usize {
        assert_eq!(consumer.read_constraint_at(k).unwrap(), sample_payload(100 + k as u64));
    }
}
