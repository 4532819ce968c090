//! Benchmark loop accounting: each iteration performs a fixed number of
//! fixed-size writes, flushes, and reports how many bytes went out and how
//! long the batch took. Iterations are independent; nothing is aggregated.
//!
//! The content written is a constant-filled buffer: only throughput is under
//! test, not data integrity.

use crate::block_adapter::{lemma_aligned_write, BlockAdapter};
use vstd::arithmetic::div_mod::lemma_fundamental_div_mod;
use vstd::prelude::*;

verus! {

/// Bytes per logical write in one iteration.
pub const WRITE_SIZE: usize = 1024;

/// Logical writes per iteration.
pub const BATCH_COUNT: usize = 1024;

/// Adapter block size used by the storage path.
pub const BLOCK_SIZE: usize = 512;

/// The constant byte the write buffer is filled with.
pub const FILL_BYTE: u8 = 65;

/// What one benchmark iteration measured.
#[derive(Clone, Copy, PartialEq, Eq, Structural, Debug)]
pub struct IterationReport {
    /// Bytes handed to the storage path during the iteration.
    pub bytes_written: u64,
    /// Wall-clock time the iteration took, in microseconds.
    pub elapsed_micros: u64,
}

impl IterationReport {
    /// Elapsed time in whole milliseconds, for the one-line report.
    pub fn elapsed_millis(&self) -> (ms: u64)
        ensures
            ms == self.elapsed_micros / 1000,
    {
        self.elapsed_micros / 1000
    }
}

/// Account for one iteration: `batch_count` writes of `write_size` bytes
/// between two readings of a monotonic clock. While the clock moved — the
/// end reading is past the start reading — the elapsed time is positive and
/// the byte count is exactly the batch size times the write size.
pub fn iteration_report(
    start_micros: u64,
    end_micros: u64,
    batch_count: u64,
    write_size: u64,
) -> (r: IterationReport)
    requires
        start_micros < end_micros,
        batch_count * write_size <= u64::MAX,
    ensures
        r.bytes_written == batch_count * write_size,
        r.elapsed_micros == end_micros - start_micros,
        r.elapsed_micros > 0,
{
    IterationReport {
        bytes_written: batch_count * write_size,
        elapsed_micros: end_micros - start_micros,
    }
}

/// The constant-filled write buffer: `len` copies of the fill byte.
pub fn fill_buffer(len: usize) -> (buf: Vec<u8>)
    ensures
        buf@.len() == len,
        forall|i: int| 0 <= i < len ==> buf@[i] == FILL_BYTE,
{
    let mut buf: Vec<u8> = Vec::new();
    let mut i: usize = 0;
    while i < len
        invariant
            i <= len,
            buf@.len() == i,
            forall|j: int| 0 <= j < i ==> buf@[j] == FILL_BYTE,
        decreases len - i,
    {
        buf.push(FILL_BYTE);
        i = i + 1;
    }
    buf
}

/// One benchmark batch through the staging adapter: `count` writes of
/// `write_size` fill bytes each, with the write size a whole number of
/// blocks. Starting from an empty stage, the batch leaves the stage empty
/// and the number of emitted blocks accounts for every byte written:
/// blocks times block size equals count times write size.
pub fn write_batch(adapter: &mut BlockAdapter, count: usize, write_size: usize) -> (nblocks:
    usize)
    requires
        old(adapter).wf(),
        old(adapter).staged@.len() == 0,
        write_size % old(adapter).block_size == 0,
        count * write_size <= usize::MAX,
    ensures
        final(adapter).wf(),
        final(adapter).block_size == old(adapter).block_size,
        final(adapter).staged@.len() == 0,
        nblocks * old(adapter).block_size == count * write_size,
{
    let buf = fill_buffer(write_size);
    let ghost b: int = adapter.block_size as int;
    let ghost bs0: usize = adapter.block_size;
    let mut nblocks: usize = 0;
    let mut it: usize = 0;
    while it < count
        invariant
            it <= count,
            adapter.wf(),
            adapter.block_size == bs0,
            b == bs0 as int,
            adapter.staged@.len() == 0,
            buf@.len() == write_size,
            write_size % bs0 == 0,
            count * write_size <= usize::MAX,
            nblocks * b == it * write_size,
        decreases count - it,
    {
        let ghost k: int = write_size as int / b;
        proof {
            assert(adapter.staged@ =~= Seq::<u8>::empty());
            lemma_fundamental_div_mod(write_size as int, b);
            assert(b * k == k * b) by (nonlinear_arith);
            assert(k >= 0) by (nonlinear_arith)
                requires
                    write_size as int == k * b,
                    b > 0,
                    write_size >= 0,
            ;
            lemma_aligned_write(buf@, b, k);
        }
        let out = adapter.write(&buf);
        proof {
            assert(out@.map_values(|v: Vec<u8>| v@).len() == out@.len());
            assert((nblocks + k) * b == it * write_size + write_size && (it + 1) * write_size == it
                * write_size + write_size) by (nonlinear_arith)
                requires
                    nblocks * b == it * write_size,
                    k * b == write_size,
            ;
            assert(nblocks + k <= count * write_size) by (nonlinear_arith)
                requires
                    (nblocks + k) * b == (it + 1) * write_size,
                    it + 1 <= count,
                    b >= 1,
                    nblocks + k >= 0,
                    write_size >= 0,
                    count >= 0,
            ;
        }
        nblocks = nblocks + out.len();
        it = it + 1;
    }
    nblocks
}

} // verus!
