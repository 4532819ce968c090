use storage_bench::block_adapter::{io_error_of_transport, BlockAdapter, IoError};
use storage_bench::transport::TransportError;

#[test]
fn aligned_write_emits_exact_blocks() {
    let mut a = BlockAdapter::new(4);
    let data: Vec<u8> = vec![1, 2, 3, 4, 5, 6, 7, 8, 9, 10, 11, 12];
    let out = a.write(&data);
    assert_eq!(out.len(), 3);
    assert_eq!(out[0], vec![1, 2, 3, 4]);
    assert_eq!(out[1], vec![5, 6, 7, 8]);
    assert_eq!(out[2], vec![9, 10, 11, 12]);
    assert_eq!(a.staged.len(), 0);
}

#[test]
fn aligned_write_default_block_size() {
    let mut a = BlockAdapter::new(512);
    let data: Vec<u8> = vec![65u8; 1024];
    let out = a.write(&data);
    assert_eq!(out.len(), 2);
    assert_eq!(out[0], vec![65u8; 512]);
    assert_eq!(out[1], vec![65u8; 512]);
    assert_eq!(a.staged.len(), 0);
}

#[test]
fn partial_write_buffers_without_transfer() {
    let mut a = BlockAdapter::new(4);
    let data: Vec<u8> = vec![1, 2, 3];
    let out = a.write(&data);
    assert_eq!(out.len(), 0);
    assert_eq!(a.staged, vec![1, 2, 3]);
}

#[test]
fn flush_pads_partial_block_with_zeros() {
    let mut a = BlockAdapter::new(4);
    let data: Vec<u8> = vec![1, 2, 3];
    let out = a.write(&data);
    assert_eq!(out.len(), 0);
    let flushed = a.flush();
    assert_eq!(flushed, Some(vec![1, 2, 3, 0]));
    assert_eq!(a.staged.len(), 0);
}

#[test]
fn flush_with_nothing_buffered_emits_nothing() {
    let mut a = BlockAdapter::new(4);
    assert_eq!(a.flush(), None);
}

#[test]
fn flush_is_idempotent_after_partial_flush() {
    let mut a = BlockAdapter::new(4);
    let data: Vec<u8> = vec![9, 9];
    let _ = a.write(&data);
    let first = a.flush();
    assert_eq!(first, Some(vec![9, 9, 0, 0]));
    let second = a.flush();
    assert_eq!(second, None);
}

#[test]
fn boundary_crossing_completes_one_block() {
    let mut a = BlockAdapter::new(4);
    let first: Vec<u8> = vec![1, 2, 3];
    assert_eq!(a.write(&first).len(), 0);
    let second: Vec<u8> = vec![4, 5];
    let out = a.write(&second);
    assert_eq!(out, vec![vec![1, 2, 3, 4]]);
    assert_eq!(a.staged, vec![5]);
}

#[test]
fn write_order_is_preserved_across_writes() {
    let mut a = BlockAdapter::new(2);
    let first: Vec<u8> = vec![1, 2, 3];
    let second: Vec<u8> = vec![4, 5, 6];
    let mut blocks = a.write(&first);
    blocks.extend(a.write(&second));
    assert_eq!(blocks, vec![vec![1, 2], vec![3, 4], vec![5, 6]]);
    assert_eq!(a.staged.len(), 0);
}

#[test]
fn transport_failure_maps_into_io_error() {
    let e = io_error_of_transport(TransportError::Timeout);
    assert!(matches!(e, IoError::Transport(TransportError::Timeout)));
    let e = io_error_of_transport(TransportError::Nack);
    assert!(matches!(e, IoError::Transport(TransportError::Nack)));
}
