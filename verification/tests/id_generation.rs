use chat_membership::ids::{
    new_generator, next_attachment_id, next_gid, next_message_id, IdError, IdStatus, NODE_MAX,
    SEQ_MAX, TS_MAX,
};

fn ready(r: Result<IdStatus, IdError>) -> u64 {
    match r {
        Ok(IdStatus::Ready(id)) => id,
        other => panic!("expected an id, got {:?}", other),
    }
}

#[test]
fn id_layout_is_exact() {
    let mut g = new_generator(3);
    // timestamp 1, node 3, sequence 0:
    // 1 * 2^22 + 3 * 2^12 + 0 = 0x40_0000 + 0x3000.
    assert_eq!(ready(g.try_next_id(1)), 0x40_3000);
}

#[test]
fn sequence_increments_within_one_millisecond() {
    let mut g = new_generator(3);
    let first = ready(g.try_next_id(5));
    let second = ready(g.try_next_id(5));
    assert_eq!(first, 5 * 0x40_0000 + 3 * 0x1000);
    assert_eq!(second, first + 1);
}

#[test]
fn ids_are_distinct_and_increasing_in_generation_order() {
    let mut g = new_generator(1);
    let readings: [u64; 8] = [5, 5, 5, 7, 9, 9, 12, 30];
    let mut ids: Vec<u64> = Vec::new();
    for now in readings {
        ids.push(ready(g.try_next_id(now)));
    }
    for i in 1..ids.len() {
        assert!(ids[i - 1] < ids[i]);
    }
    let mut sorted = ids.clone();
    sorted.sort();
    sorted.dedup();
    assert_eq!(sorted.len(), ids.len());
}

#[test]
fn clock_regression_fails_without_issuing_an_id() {
    let mut g = new_generator(0);
    let before = ready(g.try_next_id(10));
    assert_eq!(g.try_next_id(9), Err(IdError::ClockRegression));
    // The generator state is untouched: the next id of the same
    // millisecond continues the sequence instead of repeating or
    // shrinking.
    let after = ready(g.try_next_id(10));
    assert_eq!(after, before + 1);
}

#[test]
fn sequence_exhaustion_is_pending_not_an_error() {
    let mut g = new_generator(0);
    let mut last: u64 = 0;
    for _ in 0..(SEQ_MAX + 1) {
        let id = ready(g.try_next_id(1));
        assert!(id > last);
        last = id;
    }
    assert_eq!(g.try_next_id(1), Ok(IdStatus::Pending));
    // A later millisecond reopens the generator.
    let reopened = ready(g.try_next_id(2));
    assert!(reopened > last);
}

#[test]
fn oversized_timestamp_is_rejected() {
    let mut g = new_generator(0);
    assert_eq!(g.try_next_id(TS_MAX + 1), Err(IdError::TimestampOutOfRange));
    assert_eq!(ready(g.try_next_id(TS_MAX)), TS_MAX * 0x40_0000);
}

#[test]
fn largest_fields_fit_without_overflow() {
    let mut g = new_generator(NODE_MAX);
    // Drive the sequence to its maximum inside the last millisecond.
    let mut last: u64 = 0;
    for _ in 0..(SEQ_MAX + 1) {
        last = ready(g.try_next_id(TS_MAX));
    }
    assert_eq!(last, u64::MAX);
}

#[test]
fn clock_driven_ids_are_strictly_increasing() {
    let mut g = new_generator(0);
    let mut last: u64 = 0;
    // Enough draws to exhaust several milliseconds' sequence ranges, so
    // the wait-for-the-next-millisecond path is exercised too.
    for _ in 0..20_000 {
        let id = g.next_id().expect("the monotonic clock never regresses");
        assert!(id > last);
        last = id;
    }
}

#[test]
fn entity_id_helpers_draw_from_the_same_sequence() {
    let mut g = new_generator(2);
    let a = next_gid(&mut g).unwrap();
    let b = next_message_id(&mut g).unwrap();
    let c = next_attachment_id(&mut g).unwrap();
    assert!(a < b && b < c);
}
