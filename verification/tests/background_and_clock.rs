use storage_bench::background::{churn_step, BACKGROUND_BUF_LEN, CHURN_INTERVAL_MICROS};
use storage_bench::clock::Clock;

#[test]
fn churn_step_copies_the_buffer_exactly() {
    let src: Vec<u8> = (0..255u8).collect();
    let dst = churn_step(&src);
    assert_eq!(dst, src);
}

#[test]
fn churn_step_handles_the_full_scratch_buffer() {
    let src: Vec<u8> = vec![0u8; BACKGROUND_BUF_LEN];
    let dst = churn_step(&src);
    assert_eq!(dst.len(), 2048);
    assert_eq!(dst, src);
    assert_eq!(CHURN_INTERVAL_MICROS, 5);
}

#[test]
fn churn_step_of_empty_buffer_is_empty() {
    let src: Vec<u8> = Vec::new();
    let dst = churn_step(&src);
    assert!(dst.is_empty());
}

#[test]
fn clock_reads_the_epoch() {
    let t = Clock.get_timestamp();
    assert_eq!(t.year_since_1970, 0);
    assert_eq!(t.zero_indexed_month, 0);
    assert_eq!(t.zero_indexed_day, 0);
    assert_eq!(t.hours, 0);
    assert_eq!(t.minutes, 0);
    assert_eq!(t.seconds, 0);
}
