use ignition::polling::{PollState, queue_message_room};
use ignition::websocket::structs::{Message, PollingCounters};

#[test]
fn counters_count_and_reset() {
    let mut c = PollingCounters { null_counter: 0, full_counter: 0 };
    c.incre_null_counter();
    c.incre_null_counter();
    c.incre_full_counter();
    assert_eq!((c.null_counter, c.full_counter), (2, 1));
    c.reset_null_counter();
    assert_eq!((c.null_counter, c.full_counter), (0, 1));
    c.incre_null_counter();
    c.reset_full_counter();
    assert_eq!((c.null_counter, c.full_counter), (1, 0));
    c.reset();
    assert_eq!((c.null_counter, c.full_counter), (0, 0));
}

#[test]
fn initial_full_count_shrinks_the_first_sleep() {
    let mut p = PollState::new();
    let d = p.poll_step(0);
    assert!(d.deliver);
    assert_eq!(d.sleep_secs, 1);
    assert_eq!((p.null_counter(), p.full_counter()), (1, 0));
}

#[test]
fn fourth_empty_poll_stretches_the_sleep() {
    let mut p = PollState::new();
    let sleeps: Vec<(bool, u64)> = (0..4).map(|_| {
        let d = p.poll_step(0);
        (d.deliver, d.sleep_secs)
    }).collect();
    assert_eq!(sleeps, vec![(true, 1), (true, 1), (true, 1), (false, 3)]);
    assert_eq!(p.null_counter(), 0);
    assert_eq!(p.sleep_duration(), 3);
}

#[test]
fn full_poll_resets_the_sleep() {
    let mut p = PollState::new();
    for _ in 0..4 {
        p.poll_step(0);
    }
    let d = p.poll_step(5);
    assert!(d.deliver);
    assert_eq!(d.sleep_secs, 5);
    assert_eq!(p.full_counter(), 1);
}

#[test]
fn partial_poll_resets_both_counters() {
    let mut p = PollState::new();
    p.poll_step(0);
    p.poll_step(5);
    let d = p.poll_step(2);
    assert!(d.deliver);
    assert_eq!((p.null_counter(), p.full_counter()), (0, 0));
    assert_eq!(d.sleep_secs, 5);
}

#[test]
fn long_sleep_is_reset_after_a_delivering_poll() {
    let mut p = PollState::new();
    let mut last = 0;
    for _ in 0..32 {
        let d = p.poll_step(0);
        last = d.sleep_secs;
    }
    assert_eq!(last, 3u64.pow(8));
    let d = p.poll_step(0);
    assert!(d.deliver);
    assert_eq!(d.sleep_secs, 5);
    for _ in 0..200 {
        let d = p.poll_step(0);
        assert!(d.sleep_secs <= 3 * 3599);
        if d.deliver {
            assert!(d.sleep_secs <= 3599);
        }
    }
}

#[test]
fn queued_message_room_is_keyed() {
    let m = Message {
        key: "key".to_string(),
        group_id: "grp".to_string(),
        event_name: "e".to_string(),
        message: "m".to_string(),
    };
    assert_eq!(queue_message_room(&m), "key_grp");
}

#[test]
fn every_sleep_stays_between_a_second_and_three_hours() {
    let mut p = PollState::new();
    let pattern: [usize; 12] = [0, 0, 0, 0, 3, 5, 5, 5, 5, 5, 0, 2];
    for round in 0..400 {
        let received = if round < 300 { 0 } else { pattern[round % pattern.len()] };
        let d = p.poll_step(received);
        assert!(d.sleep_secs >= 1);
        assert!(d.sleep_secs <= 3 * 3599);
        if d.deliver {
            assert!(d.sleep_secs <= 3599);
        }
    }
}
