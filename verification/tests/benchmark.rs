use storage_bench::benchmark::{
    fill_buffer, iteration_report, write_batch, BATCH_COUNT, BLOCK_SIZE, FILL_BYTE, WRITE_SIZE,
};
use storage_bench::block_adapter::BlockAdapter;

#[test]
fn iteration_report_counts_every_byte_and_positive_elapsed() {
    let r = iteration_report(1_000, 2_000, 1024, 1024);
    assert_eq!(r.bytes_written, 1_048_576);
    assert_eq!(r.elapsed_micros, 1_000);
    assert!(r.elapsed_micros > 0);
}

#[test]
fn elapsed_millis_rounds_down_microseconds() {
    let r = iteration_report(0, 1_500_999, 1, 1);
    assert_eq!(r.elapsed_millis(), 1_500);
    let line = format!("Writing a MB took {}", r.elapsed_millis());
    assert_eq!(line, "Writing a MB took 1500");
}

#[test]
fn fill_buffer_is_constant_filled() {
    let buf = fill_buffer(WRITE_SIZE);
    assert_eq!(buf.len(), 1024);
    assert!(buf.iter().all(|&b| b == FILL_BYTE));
    assert_eq!(FILL_BYTE, 65);
}

#[test]
fn batch_accounts_for_every_block() {
    let mut a = BlockAdapter::new(512);
    let nblocks = write_batch(&mut a, 4, 1024);
    assert_eq!(nblocks, 8);
    assert_eq!(a.staged.len(), 0);
    assert_eq!(a.flush(), None);
}

#[test]
fn full_iteration_batch_is_one_mebibyte() {
    let mut a = BlockAdapter::new(BLOCK_SIZE);
    let nblocks = write_batch(&mut a, BATCH_COUNT, WRITE_SIZE);
    assert_eq!(nblocks * BLOCK_SIZE, 1024 * 1024);
    assert_eq!(nblocks, 2048);
    let r = iteration_report(5, 10, BATCH_COUNT as u64, WRITE_SIZE as u64);
    assert_eq!(r.bytes_written, (nblocks * BLOCK_SIZE) as u64);
}

#[test]
fn batch_with_zero_writes_moves_nothing() {
    let mut a = BlockAdapter::new(512);
    let nblocks = write_batch(&mut a, 0, 1024);
    assert_eq!(nblocks, 0);
    assert_eq!(a.flush(), None);
}
