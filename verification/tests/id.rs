use hora_id::{FormatError, HoraId, HoraParams, EPOCH};

#[test]
fn it_works() {
    let id = HoraId::new(None);
    assert!(id.is_ok());
}

#[test]
fn strings() {
    let source_id = HoraId::new(None).unwrap();
    let s = source_id.to_string();
    let id = HoraId::from_str(&s);
    let derived_id = id.unwrap();
    assert_eq!(source_id.to_string(), derived_id.to_string());
}

#[test]
fn u64s() {
    let num = 57630818184577258;
    let id = HoraId::from_u64(num);
    assert!(id.is_some());
    let id = id.unwrap();
    assert_eq!(id.to_u64(), num);
}

#[test]
fn u64_round_trip_extremes() {
    for num in [0u64, 1, 255, 256, u64::MAX, u64::MAX - 1, 0x0123456789abcdef] {
        let id = HoraId::from_u64(num).unwrap();
        assert_eq!(id.to_u64(), num);
    }
}

#[test]
fn hex_all_bytes() {
    for b in 0..=255u64 {
        // The byte repeated in all eight positions.
        let num = b * 0x0101010101010101;
        let id = HoraId::from_u64(num).unwrap();
        let s = id.to_string();
        assert_eq!(s.len(), 16);
        assert!(s.chars().all(|c| c.is_ascii_digit() || ('a'..='f').contains(&c)));
        assert_eq!(s, format!("{:02x}", b).repeat(8));
        let back = HoraId::from_str(&s).unwrap();
        assert_eq!(back.to_u64(), num);
        assert_eq!(back.as_bytes(), id.as_bytes());
    }
}

#[test]
fn from_str_failures() {
    assert!(HoraId::from_str("").is_none());
    assert!(HoraId::from_str("zzzzzzzzzzzzzzzz").is_none());
    assert!(HoraId::from_str("000000000000000").is_none());
    assert!(HoraId::from_str("00000000000000000").is_none());
    assert_eq!(HoraId::from_hex_string("").unwrap_err(), FormatError::WrongLength);
    assert_eq!(
        HoraId::from_hex_string("000000000000000").unwrap_err(),
        FormatError::WrongLength
    );
    assert_eq!(
        HoraId::from_hex_string("00000000000000000").unwrap_err(),
        FormatError::WrongLength
    );
    assert_eq!(
        HoraId::from_hex_string("zzzzzzzzzzzzzzzz").unwrap_err(),
        FormatError::InvalidHex
    );
    assert_eq!(
        HoraId::from_hex_string("0000000000000 00").unwrap_err(),
        FormatError::InvalidHex
    );
}

#[test]
fn from_str_accepts_uppercase() {
    let id = HoraId::from_str("00000000000000FF").unwrap();
    assert_eq!(id.to_u64(), 255);
    let id = HoraId::from_hex_string("000000013B070001").unwrap();
    assert_eq!(id.to_string(), "000000013b070001");
}

#[test]
fn end_to_end_example() {
    // 1234 milliseconds past the reference epoch, machine 7, first sequence
    // value in the bucket.
    let id = HoraId::with_params(HoraParams { machine_id: 7, epoch: 1234, sequence: 1 });
    assert_eq!(id.as_bytes(), &[0, 0, 0, 1, 59, 7, 0, 1][..]);
    assert_eq!(id.to_string(), "000000013b070001");
    assert_eq!(id.to_u64(), 5285281793);
}

#[test]
fn decode_time_close() {
    for epoch in [0u64, 1, 3, 4, 5, 234, 499, 500, 995, 999, 1234, 1672531200998] {
        let id = HoraId::with_params(HoraParams { machine_id: 1, epoch, sequence: 1 });
        let decoded = id.decode_time() - EPOCH;
        assert!(decoded <= epoch);
        assert!(epoch - decoded <= 4);
    }
}

#[test]
fn decode_time_stable_on_exact_bytes() {
    // 500 milliseconds down-scale to byte 128, a multiple of 32: the decoded
    // offset survives a second encode/decode round trip unchanged.
    let id = HoraId::with_params(HoraParams { machine_id: 1, epoch: 7500, sequence: 1 });
    let first = id.decode_time() - EPOCH;
    assert_eq!(first, 7500);
    let again = HoraId::with_params(HoraParams { machine_id: 1, epoch: first, sequence: 1 });
    assert_eq!(again.decode_time() - EPOCH, first);
}
