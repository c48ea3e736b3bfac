use rust_thread_demo::aba::cas_outcome_message;
use rust_thread_demo::channel::channel_payload;
use rust_thread_demo::counters::{accumulate, increment};
use rust_thread_demo::text::{append_decimal, append_signed_decimal};

#[test]
fn payload_carries_the_producer_number() {
    assert_eq!(channel_payload(0), "Hello from the thread! 0");
    assert_eq!(channel_payload(7), "Hello from the thread! 7");
    assert_eq!(channel_payload(10), "Hello from the thread! 10");
    assert_eq!(channel_payload(-3), "Hello from the thread! -3");
}

#[test]
fn payload_matches_debug_format() {
    for i in [i32::MIN, -100, -1, 0, 1, 9, 10, 99, 100, 12345, i32::MAX] {
        assert_eq!(channel_payload(i), format!("Hello from the thread! {:?}", i));
    }
}

#[test]
fn decimal_rendering_matches_display() {
    for n in [0u64, 5, 10, 19, 100, 1000000, u64::MAX] {
        let mut s = String::from("n=");
        append_decimal(&mut s, n);
        assert_eq!(s, format!("n={}", n));
    }
    for i in [i64::MIN, -42, 0, 42, i64::MAX] {
        let mut s = String::new();
        append_signed_decimal(&mut s, i);
        assert_eq!(s, i.to_string());
    }
}

#[test]
fn ten_increments_count_ten() {
    let mut count = 0;
    for _ in 0..10 {
        increment(&mut count);
    }
    assert_eq!(count, 10);
}

#[test]
fn writer_increment_turns_five_into_six() {
    let mut data = 5;
    increment(&mut data);
    assert_eq!(data, 6);
}

#[test]
fn increment_reaches_max() {
    let mut v = i32::MAX - 1;
    increment(&mut v);
    assert_eq!(v, i32::MAX);
}

#[test]
fn accumulate_adds_amount() {
    let mut c: usize = 0;
    accumulate(&mut c, 2);
    accumulate(&mut c, 0);
    assert_eq!(c, 2);
    let mut m = usize::MAX - 3;
    accumulate(&mut m, 3);
    assert_eq!(m, usize::MAX);
}

#[test]
fn cas_messages() {
    assert_eq!(
        cas_outcome_message(&Ok(1)),
        "Thread 1: CAS succeeded (but value may have changed A->B->A)"
    );
    assert_eq!(cas_outcome_message(&Err(2)), "Thread 1: CAS failed");
}
