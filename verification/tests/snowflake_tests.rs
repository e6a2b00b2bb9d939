use gif_service::snowflake::{
    decode_process, decode_sequence, decode_timestamp, decode_worker, IdError, IdGenerator,
    MAX_DELTA,
};

#[test]
fn first_id_same_millisecond() {
    let mut g = IdGenerator::new(1000, 1, 1);
    let id = g.generate_at(1000).unwrap();
    // delta 0, worker 1, process 1, sequence 1
    assert_eq!(id, (1i64 << 17) | (1i64 << 12) | 1);
}

#[test]
fn bit_layout_matches_shifts() {
    let epoch: i64 = 1420070400000;
    let now: i64 = 1420070412345;
    let mut g = IdGenerator::new(epoch, 3, 7);
    let id = g.generate_at(now).unwrap();
    assert_eq!(id, ((now - epoch) << 22) | (3i64 << 17) | (7i64 << 12));
}

#[test]
fn ids_distinct_and_increasing() {
    let mut g = IdGenerator::new(1000, 0, 0);
    let times = [1001i64, 1001, 1001, 1002, 1005, 1005];
    let mut ids = Vec::new();
    for t in times {
        ids.push(g.generate_at(t).unwrap());
    }
    for i in 1..ids.len() {
        assert!(ids[i - 1] < ids[i]);
    }
    for i in 0..ids.len() {
        for j in 0..ids.len() {
            if i != j {
                assert_ne!(ids[i], ids[j]);
            }
        }
    }
}

#[test]
fn clock_skew_is_reported_and_state_kept() {
    let mut g = IdGenerator::new(1000, 1, 1);
    let id1 = g.generate_at(2000).unwrap();
    assert_eq!(g.generate_at(1999), Err(IdError::ClockSkew));
    // a later sane reading still works, and stays above the earlier id
    let id2 = g.generate_at(2000).unwrap();
    assert!(id1 < id2);
}

#[test]
fn sequence_exhaustion_in_one_millisecond() {
    let mut g = IdGenerator::new(1000, 1, 1);
    // the fresh state already uses sequence 0 at the epoch millisecond
    for _ in 0..4095 {
        g.generate_at(1000).unwrap();
    }
    assert_eq!(g.generate_at(1000), Err(IdError::Exhausted));
    // the next millisecond recovers
    assert!(g.generate_at(1001).is_ok());
}

#[test]
fn timestamp_field_exhaustion() {
    let mut g = IdGenerator::new(1000, 1, 1);
    assert_eq!(g.generate_at(1000 + MAX_DELTA + 1), Err(IdError::Exhausted));
    assert!(g.generate_at(1000 + MAX_DELTA).is_ok());
}

#[test]
fn round_trip_recovers_fields() {
    let epoch: i64 = 1420070400000;
    let now: i64 = 1420070498765;
    let mut g = IdGenerator::new(epoch, 5, 9);
    let id = g.generate_at(now).unwrap();
    assert_eq!(decode_timestamp(id, epoch), now);
    assert_eq!(decode_worker(id), 5);
    assert_eq!(decode_process(id), 9);
    assert_eq!(decode_sequence(id), 0);
    let id2 = g.generate_at(now).unwrap();
    assert_eq!(decode_timestamp(id2, epoch), now);
    assert_eq!(decode_sequence(id2), 1);
}
