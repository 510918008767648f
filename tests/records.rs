use tfrecord::masked_crc::{compute_crc, mask_crc, MaskedCrc};
use tfrecord::tf_record::{read_record, ReadRecordError, TfRecord, TfRecordState};

const HELLO_FRAME: [u8; 21] = [
    5, 0, 0, 0, 0, 0, 0, 0, 234, 178, 4, 62, 104, 101, 108, 108, 111, 187, 31, 28, 25,
];

fn frame(data: &[u8], data_crc: u32) -> Vec<u8> {
    let length = (data.len() as u64).to_le_bytes();
    let mut out = length.to_vec();
    out.extend_from_slice(&compute_crc(&length).0.to_le_bytes());
    out.extend_from_slice(data);
    out.extend_from_slice(&data_crc.to_le_bytes());
    out
}

fn decode_all(bytes: &[u8]) -> TfRecord {
    let mut st = TfRecordState::new();
    let mut pos: usize = 0;
    match read_record(&mut st, bytes, &mut pos) {
        Ok(r) => {
            assert_eq!(pos, bytes.len());
            r
        }
        Err(e) => panic!("unexpected error: {:?}", e),
    }
}

#[test]
fn mask_of_zero_is_the_delta() {
    assert_eq!(mask_crc(0), MaskedCrc(0xa282ead8));
}

#[test]
fn mask_rotates_then_adds() {
    assert_eq!(mask_crc(0xe3069283), MaskedCrc(0xc78ab0e5));
    assert_eq!(mask_crc(1), MaskedCrc(0xa282ead8u32.wrapping_add(1 << 17)));
}

#[test]
fn masked_crc_of_known_inputs() {
    assert_eq!(compute_crc(b"123456789"), MaskedCrc(0xc78ab0e5));
    assert_eq!(compute_crc(b"hello"), MaskedCrc(0x191c1fbb));
    assert_eq!(compute_crc(&[5, 0, 0, 0, 0, 0, 0, 0]), MaskedCrc(0x3e04b2ea));
    assert_eq!(compute_crc(b""), MaskedCrc(0xa282ead8));
}

#[test]
fn masked_crc_is_deterministic_and_sees_single_bit_flips() {
    let data = b"The quick brown fox".to_vec();
    let base = compute_crc(&data);
    assert_eq!(base, compute_crc(&data.clone()));
    for i in 0..data.len() {
        for bit in 0..8 {
            let mut flipped = data.clone();
            flipped[i] ^= 1 << bit;
            assert_ne!(compute_crc(&flipped), base);
        }
    }
}

#[test]
fn hello_scenario() {
    let c1 = compute_crc(&[5, 0, 0, 0, 0, 0, 0, 0]);
    let c2 = compute_crc(b"hello");
    let mut bytes = vec![5, 0, 0, 0, 0, 0, 0, 0];
    bytes.extend_from_slice(&c1.0.to_le_bytes());
    bytes.extend_from_slice(b"hello");
    bytes.extend_from_slice(&c2.0.to_le_bytes());
    assert_eq!(bytes.len(), 21);
    assert_eq!(bytes, HELLO_FRAME.to_vec());
    let rec = decode_all(&bytes);
    assert_eq!(rec.data, b"hello".to_vec());
    assert_eq!(rec.data_crc(), c2);
    assert!(rec.checksum().is_ok());
}

#[test]
fn write_emits_the_frame() {
    let rec = decode_all(&HELLO_FRAME);
    let mut out = vec![0xff];
    rec.write(&mut out);
    assert_eq!(out.len(), 22);
    assert_eq!(out[0], 0xff);
    assert_eq!(&out[1..], &HELLO_FRAME[..]);
}

#[test]
fn round_trip_keeps_a_wrong_data_crc() {
    let bytes = frame(b"payload", 0x12345678);
    let rec = decode_all(&bytes);
    assert_eq!(rec.data, b"payload".to_vec());
    assert_eq!(rec.data_crc(), MaskedCrc(0x12345678));
    let mut out = Vec::new();
    rec.write(&mut out);
    assert_eq!(out, bytes);
    let again = decode_all(&out);
    assert_eq!(again.data, rec.data);
    assert_eq!(again.data_crc(), rec.data_crc());
}

#[test]
fn empty_payload_round_trips() {
    let bytes = frame(b"", compute_crc(b"").0);
    assert_eq!(bytes.len(), 16);
    let rec = decode_all(&bytes);
    assert!(rec.data.is_empty());
    assert!(rec.checksum().is_ok());
    let mut out = Vec::new();
    rec.write(&mut out);
    assert_eq!(out, bytes);
}

#[test]
fn empty_input_is_truncated() {
    let mut st = TfRecordState::new();
    let mut pos: usize = 0;
    let r = read_record(&mut st, &[], &mut pos);
    assert!(matches!(r, Err(ReadRecordError::Truncated)));
    assert_eq!(pos, 0);
}

#[test]
fn byte_by_byte_matches_all_at_once() {
    let bytes = frame(b"resumable record", compute_crc(b"resumable record").0);
    let whole = decode_all(&bytes);
    let mut st = TfRecordState::new();
    let mut result = None;
    for (i, b) in bytes.iter().enumerate() {
        let one = [*b];
        let mut pos: usize = 0;
        match read_record(&mut st, &one, &mut pos) {
            Ok(rec) => {
                assert_eq!(i, bytes.len() - 1);
                result = Some(rec);
            }
            Err(ReadRecordError::Truncated) => assert!(i < bytes.len() - 1),
            Err(e) => panic!("unexpected error: {:?}", e),
        }
        assert_eq!(pos, 1);
    }
    let rec = result.unwrap();
    assert_eq!(rec.data, whole.data);
    assert_eq!(rec.data_crc(), whole.data_crc());
}

#[test]
fn record_then_truncated_record() {
    let first = frame(b"first", compute_crc(b"first").0);
    let second = frame(b"second!", compute_crc(b"second!").0);
    for split in 0..second.len() {
        let mut available = first.clone();
        available.extend_from_slice(&second[..split]);
        let mut st = TfRecordState::new();
        let mut pos: usize = 0;
        let rec = read_record(&mut st, &available, &mut pos).unwrap();
        assert_eq!(rec.data, b"first".to_vec());
        assert_eq!(pos, first.len());
        let r = read_record(&mut st, &available, &mut pos);
        assert!(matches!(r, Err(ReadRecordError::Truncated)));
        assert_eq!(pos, available.len());
        let rest = &second[split..];
        let mut pos2: usize = 0;
        let rec2 = read_record(&mut st, rest, &mut pos2).unwrap();
        assert_eq!(rec2.data, b"second!".to_vec());
        assert_eq!(pos2, rest.len());
        assert!(rec2.checksum().is_ok());
    }
}

#[test]
fn two_whole_records_in_one_buffer() {
    let mut bytes = frame(b"a", compute_crc(b"a").0);
    bytes.extend_from_slice(&frame(b"bc", compute_crc(b"bc").0));
    let mut st = TfRecordState::new();
    let mut pos: usize = 0;
    assert_eq!(read_record(&mut st, &bytes, &mut pos).unwrap().data, b"a".to_vec());
    assert_eq!(read_record(&mut st, &bytes, &mut pos).unwrap().data, b"bc".to_vec());
    assert_eq!(pos, bytes.len());
    assert!(matches!(
        read_record(&mut st, &bytes, &mut pos),
        Err(ReadRecordError::Truncated)
    ));
}

#[test]
fn corrupt_length_crc_is_reported() {
    let good = frame(b"hello", compute_crc(b"hello").0);
    for i in 8..12 {
        for bit in 0..8 {
            let mut bytes = good.clone();
            bytes[i] ^= 1 << bit;
            let mut st = TfRecordState::new();
            let mut pos: usize = 0;
            match read_record(&mut st, &bytes, &mut pos) {
                Err(ReadRecordError::BadLengthCrc(e)) => {
                    assert_ne!(e.got(), e.want());
                    assert_eq!(e.got(), compute_crc(&bytes[..8]));
                    let stored = u32::from_le_bytes([bytes[8], bytes[9], bytes[10], bytes[11]]);
                    assert_eq!(e.want(), MaskedCrc(stored));
                }
                other => panic!("expected a length checksum error, got {:?}", other.is_ok()),
            }
            assert_eq!(pos, 12);
            // The state stays on the bad header: a retry reports the same error.
            let again = read_record(&mut st, &bytes, &mut pos);
            assert!(matches!(again, Err(ReadRecordError::BadLengthCrc(_))));
            assert_eq!(pos, 12);
        }
    }
}

#[test]
fn oversized_length_is_too_large() {
    let length = u64::MAX - 1;
    let length_bytes = length.to_le_bytes();
    let mut bytes = length_bytes.to_vec();
    bytes.extend_from_slice(&compute_crc(&length_bytes).0.to_le_bytes());
    bytes.extend_from_slice(b"more");
    let mut st = TfRecordState::new();
    let mut pos: usize = 0;
    match read_record(&mut st, &bytes, &mut pos) {
        Err(ReadRecordError::TooLarge(n)) => assert_eq!(n, length),
        other => panic!("expected too large, got ok = {}", other.is_ok()),
    }
    assert_eq!(pos, 12);
}

#[test]
fn largest_fitting_length_is_truncated_not_too_large() {
    let length = (usize::MAX - 4) as u64;
    let length_bytes = length.to_le_bytes();
    let mut bytes = length_bytes.to_vec();
    bytes.extend_from_slice(&compute_crc(&length_bytes).0.to_le_bytes());
    bytes.extend_from_slice(b"some data");
    let mut st = TfRecordState::new();
    let mut pos: usize = 0;
    let r = read_record(&mut st, &bytes, &mut pos);
    assert!(matches!(r, Err(ReadRecordError::Truncated)));
    assert_eq!(pos, bytes.len());
}

#[test]
fn bad_payload_crc_only_shows_on_checksum() {
    let good_crc = compute_crc(b"hello");
    let bad = good_crc.0 ^ 1;
    let bytes = frame(b"hello", bad);
    let rec = decode_all(&bytes);
    assert_eq!(rec.data, b"hello".to_vec());
    match rec.checksum() {
        Err(e) => {
            assert_eq!(e.got(), good_crc);
            assert_eq!(e.want(), MaskedCrc(bad));
            assert_ne!(e.got(), e.want());
        }
        Ok(()) => panic!("checksum should fail"),
    }
}

#[test]
fn partial_header_then_rest() {
    let mut st = TfRecordState::new();
    let mut pos: usize = 0;
    let r = read_record(&mut st, &HELLO_FRAME[..7], &mut pos);
    assert!(matches!(r, Err(ReadRecordError::Truncated)));
    assert_eq!(pos, 7);
    let mut pos2: usize = 0;
    let r = read_record(&mut st, &HELLO_FRAME[7..15], &mut pos2);
    assert!(matches!(r, Err(ReadRecordError::Truncated)));
    assert_eq!(pos2, 8);
    let mut pos3: usize = 0;
    let rec = read_record(&mut st, &HELLO_FRAME[15..], &mut pos3).unwrap();
    assert_eq!(rec.data, b"hello".to_vec());
    assert_eq!(pos3, 6);
}

#[test]
fn io_error_converts_to_io_variant() {
    let e = ReadRecordError::from(std::io::Error::new(std::io::ErrorKind::Other, "boom"));
    match e {
        ReadRecordError::Io(inner) => assert_eq!(inner.kind(), std::io::ErrorKind::Other),
        _ => panic!("expected an I/O error"),
    }
}
