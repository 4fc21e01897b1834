use chrono::Timelike;
use chrono::{DateTime, Utc};
use hora_id::{
    epoch_from_unix_millis, rescale_epoch, rescale_low, upscale_low, DedupGenerator, HoraError,
    HoraGenerator, HoraId, EPOCH,
};
use std::collections::HashSet;

// One fixed millisecond offset, far past any clock reading this decade: a
// simulated time bucket for the generator tests.
const BUCKET: u64 = 3_000_000_000_000;

#[test]
fn lib_it_works() {
    let generator = HoraGenerator::new(1);
    assert!(generator.is_ok());
    let mut generator = generator.unwrap();
    generator.next().unwrap();
}

#[test]
fn chrono() {
    let id = HoraId::new(None).unwrap();
    let time = DateTime::<Utc>::from_naive_utc_and_offset(id.to_datetime(), Utc);
    let now = Utc::now();
    assert_eq!(now.date_naive(), time.date_naive());
    assert_eq!(now.hour(), time.hour());
    assert_eq!(now.minute(), time.minute());
    assert_eq!(now.second(), time.second());
}

#[test]
fn rescaling() {
    assert_eq!(rescale_low(0), 0);
    assert_eq!(rescale_low(1), 0);
    assert_eq!(rescale_low(5), 1);
    assert_eq!(rescale_low(498), 127);
    assert_eq!(rescale_low(500), 128);
    assert_eq!(rescale_low(995), 254);
    assert_eq!(rescale_low(997), 255);
    assert_eq!(rescale_low(999), 255);
}

#[test]
fn rescale() {
    let value = upscale_low(rescale_low(500));
    assert_eq!(value, 500);
}

#[test]
fn epoch_rescaling() {
    let value = 1672531200000;
    assert_eq!(rescale_epoch(value), value);
    assert_eq!(rescale_epoch(1672531200003), 1672531200000);
    assert_eq!(rescale_epoch(1672531200005), 1672531200001);
    assert_eq!(rescale_epoch(1672531200006), 1672531200001);
    assert_eq!(rescale_epoch(1672531200998), 1672531200255);
    assert_eq!(rescale_epoch(1672531200999), 1672531200255);
}

#[test]
fn sequence_ids_increase_in_bucket() {
    let mut g = HoraGenerator::new(9).unwrap();
    let mut last: Option<u64> = None;
    let mut seen = HashSet::new();
    for _ in 0..1000 {
        let id = g.next_at(BUCKET).unwrap();
        let v = id.to_u64();
        if let Some(prev) = last {
            assert!(v > prev);
        }
        assert!(seen.insert(v));
        last = Some(v);
    }
}

#[test]
fn sequence_resets_on_bucket_boundary() {
    let mut g = HoraGenerator::new(5).unwrap();
    let first = g.next_at(BUCKET).unwrap();
    assert_eq!(&first.as_bytes()[6..8], &[0, 1]);
    let second = g.next_at(BUCKET).unwrap();
    assert_eq!(&second.as_bytes()[6..8], &[0, 2]);
    // The next whole second is a strictly newer bucket: the count restarts.
    let third = g.next_at(BUCKET + 1000).unwrap();
    assert_eq!(&third.as_bytes()[6..8], &[0, 1]);
    assert!(third.to_u64() > second.to_u64());
}

#[test]
fn sequence_capacity_exhausts() {
    let mut g = HoraGenerator::new(5).unwrap();
    for _ in 0..65535 {
        g.next_at(BUCKET).unwrap();
    }
    assert_eq!(g.next_at(BUCKET).unwrap_err(), HoraError::Capacity);
    // A newer bucket recovers.
    let id = g.next_at(BUCKET + 1000).unwrap();
    assert_eq!(&id.as_bytes()[6..8], &[0, 1]);
}

#[test]
fn dedup_ids_distinct_in_bucket() {
    let mut g = DedupGenerator::new(3).unwrap();
    let mut seen = HashSet::new();
    for _ in 0..10000 {
        let id = g.next_at(BUCKET).unwrap();
        assert_eq!(id.as_bytes()[5], 3);
        assert!(seen.insert(id.to_u64()));
    }
    // Crossing the bucket boundary clears the set and keeps generating.
    let id = g.next_at(BUCKET + 1000).unwrap();
    assert!(seen.insert(id.to_u64()));
}

#[test]
fn clock_driven_ids_increase() {
    let mut g = HoraGenerator::new(2).unwrap();
    let mut prev = g.next().unwrap().to_u64();
    for _ in 0..100 {
        let v = g.next().unwrap().to_u64();
        assert!(v > prev);
        prev = v;
    }
}

#[test]
fn detached_ids_share_time_bytes_with_generator() {
    let machine = 77;
    let detached = HoraId::new(Some(machine)).unwrap();
    assert_eq!(detached.as_bytes()[5], machine);
    assert_eq!(&detached.as_bytes()[6..8], &[0, 0]);
    let decoded = detached.decode_time();
    assert!(decoded >= EPOCH);
}

#[test]
fn clock_before_epoch_is_refused() {
    assert_eq!(epoch_from_unix_millis(0), Err(HoraError::Clock));
    assert_eq!(epoch_from_unix_millis(EPOCH - 1), Err(HoraError::Clock));
    assert_eq!(epoch_from_unix_millis(EPOCH), Ok(0));
    assert_eq!(epoch_from_unix_millis(EPOCH + 1234), Ok(1234));
}
