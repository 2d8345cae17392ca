use fq_codel::{DecodeError, FqCodel, TcaFqCodel, FQ_CODEL, FQ_CODEL_LEN, TCA_FQ_CODEL};

/// One eight-byte wire record: length 8, the given kind number, the value.
fn record(kind: u16, value: u32) -> Vec<u8> {
    let mut v = Vec::new();
    v.extend_from_slice(&8u16.to_le_bytes());
    v.extend_from_slice(&kind.to_le_bytes());
    v.extend_from_slice(&value.to_le_bytes());
    v
}

/// A record with an arbitrary declared length.
fn raw_record(length: u16, kind: u16, value: u32) -> Vec<u8> {
    let mut v = Vec::new();
    v.extend_from_slice(&length.to_le_bytes());
    v.extend_from_slice(&kind.to_le_bytes());
    v.extend_from_slice(&value.to_le_bytes());
    v
}

#[test]
fn decode_two_records() {
    let mut buf = record(1, 5000);
    buf.extend_from_slice(&record(2, 10240));
    let fq = FqCodel::new(&buf).unwrap();
    assert_eq!(fq.target, 5000);
    assert_eq!(fq.limit, 10240);
    assert_eq!(fq.interval, 0);
    assert_eq!(fq.ecn, 0);
    assert_eq!(fq.flows, 0);
    assert_eq!(fq.quantum, 0);
    assert_eq!(fq.ce_threshold, 0);
    assert_eq!(fq.drop_batch_size, 0);
    assert_eq!(fq.memory_limit, 0);
    assert_eq!(fq.order, vec![TcaFqCodel::Target, TcaFqCodel::Limit]);
}

#[test]
fn decode_empty_buffer() {
    let fq = FqCodel::new(&[]).unwrap();
    assert_eq!(fq, FqCodel::default());
    assert!(fq.order.is_empty());
}

#[test]
fn decode_all_nine_fields() {
    let mut buf = Vec::new();
    for kind in 1..=9u16 {
        buf.extend_from_slice(&record(kind, 100 + kind as u32));
    }
    let fq = FqCodel::new(&buf).unwrap();
    assert_eq!(fq.target, 101);
    assert_eq!(fq.limit, 102);
    assert_eq!(fq.interval, 103);
    assert_eq!(fq.ecn, 104);
    assert_eq!(fq.flows, 105);
    assert_eq!(fq.quantum, 106);
    assert_eq!(fq.ce_threshold, 107);
    assert_eq!(fq.drop_batch_size, 108);
    assert_eq!(fq.memory_limit, 109);
    assert_eq!(fq.order.len(), 9);
}

#[test]
fn decode_duplicate_kind_last_wins() {
    let mut buf = record(5, 7);
    buf.extend_from_slice(&record(5, 9));
    let fq = FqCodel::new(&buf).unwrap();
    assert_eq!(fq.flows, 9);
    assert_eq!(fq.order, vec![TcaFqCodel::Flows, TcaFqCodel::Flows]);
}

#[test]
fn decode_truncated_header() {
    let r = FqCodel::new(&[1, 2, 3]);
    assert_eq!(r, Err(DecodeError::TruncatedHeader));
}

#[test]
fn decode_trailing_partial_record() {
    let mut buf = record(1, 1);
    buf.extend_from_slice(&[0, 0, 0]);
    let r = FqCodel::new(&buf);
    assert_eq!(r, Err(DecodeError::TruncatedHeader));
}

#[test]
fn decode_length_exceeds_buffer() {
    let buf = raw_record(9, 1, 0);
    let r = FqCodel::new(&buf);
    assert_eq!(r, Err(DecodeError::LengthExceedsBuffer));
}

#[test]
fn decode_trailing_length_exceeds_buffer() {
    let mut buf = record(1, 1);
    buf.extend_from_slice(&8u16.to_le_bytes());
    buf.extend_from_slice(&1u16.to_le_bytes());
    let r = FqCodel::new(&buf);
    assert_eq!(r, Err(DecodeError::LengthExceedsBuffer));
}

#[test]
fn decode_empty_record() {
    let buf = raw_record(0, 1, 0);
    let r = FqCodel::new(&buf);
    assert_eq!(r, Err(DecodeError::EmptyRecord));
}

#[test]
fn decode_header_too_short() {
    let buf = raw_record(2, 1, 0);
    let r = FqCodel::new(&buf);
    assert_eq!(r, Err(DecodeError::HeaderTooShort));
}

#[test]
fn decode_unexpected_payload_size() {
    let buf = raw_record(6, 1, 0);
    let r = FqCodel::new(&buf);
    assert_eq!(r, Err(DecodeError::UnexpectedPayloadSize));
}

#[test]
fn decode_unknown_kind_eleven() {
    let buf = record(11, 0);
    let r = FqCodel::new(&buf);
    assert_eq!(r, Err(DecodeError::UnknownAttributeKind));
}

#[test]
fn decode_unknown_kind_zero() {
    let buf = record(0, 42);
    let r = FqCodel::new(&buf);
    assert_eq!(r, Err(DecodeError::UnknownAttributeKind));
}

#[test]
fn decode_unknown_kind_count_marker() {
    let buf = record(10, 0);
    let r = FqCodel::new(&buf);
    assert_eq!(r, Err(DecodeError::UnknownAttributeKind));
}

#[test]
fn decode_unknown_kind_amid_valid_records() {
    let mut buf = record(1, 5000);
    buf.extend_from_slice(&record(12, 1));
    buf.extend_from_slice(&record(2, 10240));
    let r = FqCodel::new(&buf);
    assert_eq!(r, Err(DecodeError::UnknownAttributeKind));
}

#[test]
fn unmarshal_matches_new() {
    let buf = record(3, 77);
    assert_eq!(fq_codel::unmarshal_fq_codel(&buf), FqCodel::new(&buf));
}

#[test]
fn value_len_is_always_64() {
    let fq = FqCodel::default();
    assert_eq!(fq.value_len(), 64);
    assert_eq!(FQ_CODEL_LEN, 64);
    let full = FqCodel::new(&{
        let mut b = Vec::new();
        for kind in 1..=8u16 {
            b.extend_from_slice(&record(kind, kind as u32));
        }
        b
    })
    .unwrap();
    assert_eq!(full.value_len(), 64);
}

#[test]
fn kind_and_name_constants() {
    let fq = FqCodel::default();
    assert_eq!(fq.kind(), TCA_FQ_CODEL);
    assert_eq!(FQ_CODEL, "fq_codel");
}

#[test]
fn emit_single_flows_record() {
    let mut fq = FqCodel::default();
    fq.flows = 1024;
    fq.order.push(TcaFqCodel::Flows);
    let mut buffer = vec![0u8; FQ_CODEL_LEN];
    fq.emit_value(&mut buffer);
    assert_eq!(buffer.len(), 64);
    assert_eq!(&buffer[..8], &record(5, 1024)[..]);
    assert_eq!(&buffer[8..], &[0u8; 56][..]);
}

#[test]
fn emit_leaves_tail_untouched() {
    let mut fq = FqCodel::default();
    fq.target = 3;
    fq.order.push(TcaFqCodel::Target);
    let mut buffer = vec![0xabu8; FQ_CODEL_LEN];
    fq.emit_value(&mut buffer);
    assert_eq!(buffer.len(), 64);
    assert_eq!(&buffer[..8], &record(1, 3)[..]);
    assert_eq!(&buffer[8..], &[0xabu8; 56][..]);
}

#[test]
fn emit_empty_order_writes_nothing() {
    let fq = FqCodel::default();
    let mut buffer = vec![0x5au8; FQ_CODEL_LEN];
    fq.emit_value(&mut buffer);
    assert_eq!(buffer, vec![0x5au8; FQ_CODEL_LEN]);
}

#[test]
fn round_trip_preserves_values_and_order() {
    let mut buf = record(2, 10240);
    buf.extend_from_slice(&record(1, 5000));
    buf.extend_from_slice(&record(7, 64));
    let fq = FqCodel::new(&buf).unwrap();
    let mut buffer = vec![0u8; FQ_CODEL_LEN];
    fq.emit_value(&mut buffer);
    assert_eq!(&buffer[..buf.len()], &buf[..]);
    let again = FqCodel::new(&buffer[..buf.len()]).unwrap();
    assert_eq!(again, fq);
}

#[test]
fn kind_conversions() {
    assert_eq!(TcaFqCodel::from(0), TcaFqCodel::Unspec);
    assert_eq!(TcaFqCodel::from(1), TcaFqCodel::Target);
    assert_eq!(TcaFqCodel::from(2), TcaFqCodel::Limit);
    assert_eq!(TcaFqCodel::from(3), TcaFqCodel::Interval);
    assert_eq!(TcaFqCodel::from(4), TcaFqCodel::Ecn);
    assert_eq!(TcaFqCodel::from(5), TcaFqCodel::Flows);
    assert_eq!(TcaFqCodel::from(6), TcaFqCodel::Quantum);
    assert_eq!(TcaFqCodel::from(7), TcaFqCodel::CeThreshold);
    assert_eq!(TcaFqCodel::from(8), TcaFqCodel::DropBatchSize);
    assert_eq!(TcaFqCodel::from(9), TcaFqCodel::MemoryLimit);
    assert_eq!(TcaFqCodel::from(10), TcaFqCodel::Max);
    assert_eq!(TcaFqCodel::from(11), TcaFqCodel::Max);
    assert_eq!(TcaFqCodel::from(u16::MAX), TcaFqCodel::Max);
    assert_eq!(TcaFqCodel::Flows.code(), 5);
    assert_eq!(TcaFqCodel::Unspec.code(), 0);
    assert_eq!(TcaFqCodel::Max.code(), 10);
    assert_eq!(TcaFqCodel::default(), TcaFqCodel::Unspec);
}

#[test]
fn error_messages() {
    assert_eq!(DecodeError::TruncatedHeader.message(), "fq_codel: invalid data");
    assert_eq!(DecodeError::LengthExceedsBuffer.message(), "fq_codel: invalid data");
    assert_eq!(DecodeError::EmptyRecord.message(), "fq_codel: empty data");
    assert_eq!(DecodeError::HeaderTooShort.message(), "fq_codel: invalid data");
    assert_eq!(DecodeError::UnexpectedPayloadSize.message(), "fq_codel: invalid data");
    assert_eq!(DecodeError::UnknownAttributeKind.message(), "fq_codel: unknown attribute");
}

#[test]
fn field_values_by_kind() {
    let mut buf = record(4, 1);
    buf.extend_from_slice(&record(9, 8192));
    let fq = FqCodel::new(&buf).unwrap();
    assert_eq!(fq.field_value(TcaFqCodel::Ecn), 1);
    assert_eq!(fq.field_value(TcaFqCodel::MemoryLimit), 8192);
    assert_eq!(fq.field_value(TcaFqCodel::Target), 0);
    assert_eq!(fq.field_value(TcaFqCodel::Unspec), 0);
}

#[test]
fn equality_follows_fields_and_order() {
    let buf = record(6, 1514);
    let a = FqCodel::new(&buf).unwrap();
    let b = FqCodel::new(&buf).unwrap();
    assert_eq!(a, b);
    let mut c = b.clone();
    c.quantum = 1515;
    assert_ne!(a, c);
    let mut d = a.clone();
    d.order.push(TcaFqCodel::Quantum);
    assert_ne!(a, d);
}
