//! Block device adapter: maps a logical byte-stream write onto block-aligned
//! transfers of a fixed block size.
//!
//! Incoming bytes accumulate in a staging buffer. Whenever the buffer
//! reaches exactly one block, that block is emitted and the buffer starts
//! over, preserving write order. An explicit flush emits any partial
//! trailing block, zero-padded to a whole block, and leaves nothing staged.
//! The adapter computes the transfers; the owner of the card handle carries
//! them out, one logical write or flush at a time.

use crate::transport::TransportError;
use vstd::prelude::*;

verus! {

/// Block write or flush failure at the adapter layer. Not retried: the run
/// treats it as fatal.
#[derive(Clone, Copy, PartialEq, Eq, Structural, Debug)]
pub enum IoError {
    /// The transfer below the adapter failed.
    Transport(TransportError),
}

/// Map a bus-level failure into the adapter's error, unchanged.
pub fn io_error_of_transport(e: TransportError) -> (r: IoError)
    ensures
        r == IoError::Transport(e),
{
    IoError::Transport(e)
}

/// The blocks emitted when `data` is fed byte by byte into a staging buffer
/// holding `stage`, with block size `b`: each time the buffer fills, its
/// contents leave as one block.
pub open spec fn absorb_blocks(stage: Seq<u8>, data: Seq<u8>, b: int) -> Seq<Seq<u8>>
    decreases data.len(),
{
    if data.len() == 0 {
        Seq::<Seq<u8>>::empty()
    } else {
        let stage1 = stage.push(data[0]);
        if stage1.len() == b {
            seq![stage1] + absorb_blocks(Seq::<u8>::empty(), data.drop_first(), b)
        } else {
            absorb_blocks(stage1, data.drop_first(), b)
        }
    }
}

/// What remains in the staging buffer after `data` has been fed into it.
pub open spec fn absorb_stage(stage: Seq<u8>, data: Seq<u8>, b: int) -> Seq<u8>
    decreases data.len(),
{
    if data.len() == 0 {
        stage
    } else {
        let stage1 = stage.push(data[0]);
        if stage1.len() == b {
            absorb_stage(Seq::<u8>::empty(), data.drop_first(), b)
        } else {
            absorb_stage(stage1, data.drop_first(), b)
        }
    }
}

/// A partial stage padded with zero bytes up to one whole block.
pub open spec fn padded_block(stage: Seq<u8>, b: int) -> Seq<u8> {
    stage + Seq::new((b - stage.len()) as nat, |i: int| 0u8)
}

/// Whole blocks only: every transfer the staging buffer emits is exactly
/// one block long, however the incoming writes are cut.
pub proof fn lemma_blocks_full(stage: Seq<u8>, data: Seq<u8>, b: int)
    requires
        0 < b,
        stage.len() < b,
    ensures
        forall|i: int|
            0 <= i < absorb_blocks(stage, data, b).len() ==> #[trigger] absorb_blocks(
                stage,
                data,
                b,
            )[i].len() == b,
    decreases data.len(),
{
    if data.len() == 0 {
    } else {
        let stage1 = stage.push(data[0]);
        if stage1.len() == b {
            lemma_blocks_full(Seq::<u8>::empty(), data.drop_first(), b);
        } else {
            lemma_blocks_full(stage1, data.drop_first(), b);
        }
        assert forall|i: int| 0 <= i < absorb_blocks(stage, data, b).len() implies #[trigger]
        absorb_blocks(stage, data, b)[i].len() == b by {
            if stage1.len() == b {
                if i > 0 {
                    assert(absorb_blocks(stage, data, b)[i] == absorb_blocks(
                        Seq::<u8>::empty(),
                        data.drop_first(),
                        b,
                    )[i - 1]);
                }
            } else {
                assert(absorb_blocks(stage, data, b)[i] == absorb_blocks(
                    stage1,
                    data.drop_first(),
                    b,
                )[i]);
            }
        }
    }
}

/// Write order is kept across installments: feeding `d1` and then `d2`
/// emits the same blocks, in the same order, as feeding their
/// concatenation at once, and leaves the same bytes staged.
pub proof fn lemma_write_append(stage: Seq<u8>, d1: Seq<u8>, d2: Seq<u8>, b: int)
    ensures
        absorb_blocks(stage, d1 + d2, b) == absorb_blocks(stage, d1, b) + absorb_blocks(
            absorb_stage(stage, d1, b),
            d2,
            b,
        ),
        absorb_stage(stage, d1 + d2, b) == absorb_stage(absorb_stage(stage, d1, b), d2, b),
    decreases d1.len(),
{
    if d1.len() == 0 {
        assert(d1 + d2 =~= d2);
        assert(absorb_blocks(stage, d1, b) + absorb_blocks(stage, d2, b) =~= absorb_blocks(
            stage,
            d2,
            b,
        ));
    } else {
        let stage1 = stage.push(d1[0]);
        assert((d1 + d2)[0] == d1[0]);
        assert((d1 + d2).drop_first() =~= d1.drop_first() + d2);
        if stage1.len() == b {
            lemma_write_append(Seq::<u8>::empty(), d1.drop_first(), d2, b);
            assert(seq![stage1] + (absorb_blocks(Seq::<u8>::empty(), d1.drop_first(), b)
                + absorb_blocks(absorb_stage(Seq::<u8>::empty(), d1.drop_first(), b), d2, b))
                =~= (seq![stage1] + absorb_blocks(Seq::<u8>::empty(), d1.drop_first(), b))
                + absorb_blocks(absorb_stage(Seq::<u8>::empty(), d1.drop_first(), b), d2, b));
        } else {
            lemma_write_append(stage1, d1.drop_first(), d2, b);
        }
    }
}

proof fn lemma_absorb_first_block(stage: Seq<u8>, data: Seq<u8>, b: int)
    requires
        0 < b,
        stage.len() < b,
        stage.len() + data.len() >= b,
    ensures
        absorb_blocks(stage, data, b) == seq![stage + data.subrange(0, b - stage.len())]
            + absorb_blocks(
            Seq::<u8>::empty(),
            data.subrange(b - stage.len(), data.len() as int),
            b,
        ),
        absorb_stage(stage, data, b) == absorb_stage(
            Seq::<u8>::empty(),
            data.subrange(b - stage.len(), data.len() as int),
            b,
        ),
    decreases data.len(),
{
    let stage1 = stage.push(data[0]);
    if stage1.len() == b {
        assert(stage + data.subrange(0, 1) =~= stage1);
        assert(data.drop_first() =~= data.subrange(1, data.len() as int));
    } else {
        lemma_absorb_first_block(stage1, data.drop_first(), b);
        let k = b - stage.len();
        assert(data.drop_first() =~= data.subrange(1, data.len() as int));
        data.lemma_slice_of_slice(1, data.len() as int, 0, b - stage1.len());
        assert(stage1 + data.drop_first().subrange(0, b - stage1.len()) =~= stage + data.subrange(
            0,
            k,
        ));
        data.lemma_slice_of_slice(
            1,
            data.len() as int,
            b - stage1.len(),
            data.len() as int - 1,
        );
        assert(data.drop_first().subrange(b - stage1.len(), data.drop_first().len() as int)
            =~= data.subrange(k, data.len() as int));
    }
}

/// Block alignment: writing a whole number `k` of blocks into an empty
/// staging buffer issues exactly `k` block transfers, in order, with no
/// gaps or overlaps — the i-th transfer is exactly the i-th block-sized
/// slice of the data — and leaves nothing staged.
pub proof fn lemma_aligned_write(data: Seq<u8>, b: int, k: int)
    requires
        0 < b,
        0 <= k,
        data.len() == k * b,
    ensures
        absorb_blocks(Seq::<u8>::empty(), data, b).len() == k,
        forall|i: int|
            0 <= i < k ==> absorb_blocks(Seq::<u8>::empty(), data, b)[i] == data.subrange(
                i * b,
                (i + 1) * b,
            ),
        absorb_stage(Seq::<u8>::empty(), data, b).len() == 0,
    decreases k,
{
    let empty = Seq::<u8>::empty();
    if k == 0 {
        assert(data.len() == 0) by (nonlinear_arith)
            requires
                data.len() == k * b,
                k == 0,
        ;
    } else {
        assert(data.len() >= b) by (nonlinear_arith)
            requires
                data.len() == k * b,
                k >= 1,
                b > 0,
        ;
        lemma_absorb_first_block(empty, data, b);
        assert(empty + data.subrange(0, b) =~= data.subrange(0, b));
        let rest = data.subrange(b, data.len() as int);
        assert(rest.len() == (k - 1) * b) by (nonlinear_arith)
            requires
                rest.len() == data.len() - b,
                data.len() == k * b,
        ;
        lemma_aligned_write(rest, b, k - 1);
        let blocks = absorb_blocks(empty, data, b);
        let rblocks = absorb_blocks(empty, rest, b);
        assert(blocks =~= seq![data.subrange(0, b)] + rblocks);
        assert forall|i: int| 0 <= i < k implies blocks[i] == data.subrange(i * b, (i + 1) * b) by {
            if i == 0 {
                assert(0 * b == 0 && (0 + 1) * b == b) by (nonlinear_arith);
                assert(blocks[0] == data.subrange(0, b));
            } else {
                assert(0 <= (i - 1) * b && i * b <= rest.len() && (i - 1) * b + b == i * b && i * b
                    + b == (i + 1) * b && b + i * b <= data.len()) by (nonlinear_arith)
                    requires
                        1 <= i < k,
                        0 < b,
                        rest.len() == (k - 1) * b,
                        data.len() == k * b,
                ;
                assert(blocks[i] == rblocks[i - 1]);
                assert(rblocks[i - 1] == rest.subrange((i - 1) * b, i * b));
                data.lemma_slice_of_slice(b, data.len() as int, (i - 1) * b, i * b);
                assert(rest.subrange((i - 1) * b, i * b) =~= data.subrange(
                    b + (i - 1) * b,
                    b + i * b,
                ));
                assert(b + (i - 1) * b == i * b && b + i * b == (i + 1) * b) by (nonlinear_arith)
                    requires
                        0 < b,
                ;
            }
        }
    }
}

/// Partial flush: a stage of `K` bytes with `0 < K < b` pads to exactly one
/// whole block whose first `K` bytes are the staged data and whose tail is
/// deterministic zero padding.
pub proof fn lemma_flush_partial(stage: Seq<u8>, b: int)
    requires
        0 < b,
        0 < stage.len() < b,
    ensures
        padded_block(stage, b).len() == b,
        padded_block(stage, b).subrange(0, stage.len() as int) == stage,
        forall|i: int| stage.len() <= i < b ==> padded_block(stage, b)[i] == 0u8,
{
    assert(padded_block(stage, b).subrange(0, stage.len() as int) =~= stage);
}

/// The staging adapter over one card handle.
pub struct BlockAdapter {
    /// Fixed transfer block size in bytes.
    pub block_size: usize,
    /// Bytes accepted but not yet part of an emitted block.
    pub staged: Vec<u8>,
}

impl BlockAdapter {
    /// Well-formedness: a positive block size, and never a whole block left
    /// sitting in the staging buffer.
    pub open spec fn wf(self) -> bool {
        0 < self.block_size && self.staged@.len() < self.block_size
    }

    /// A fresh adapter with the given block size and nothing staged.
    pub fn new(block_size: usize) -> (a: BlockAdapter)
        requires
            0 < block_size,
        ensures
            a.wf(),
            a.block_size == block_size,
            a.staged@.len() == 0,
    {
        BlockAdapter { block_size, staged: Vec::new() }
    }

    /// Accept `data` into the staging buffer and return the whole blocks
    /// this write completes, in order. The blocks and the bytes left staged
    /// are exactly what the absorb model says; in particular every returned
    /// block is full-sized and order is preserved.
    pub fn write(&mut self, data: &Vec<u8>) -> (out: Vec<Vec<u8>>)
        requires
            old(self).wf(),
        ensures
            final(self).wf(),
            final(self).block_size == old(self).block_size,
            out@.map_values(|v: Vec<u8>| v@) == absorb_blocks(
                old(self).staged@,
                data@,
                old(self).block_size as int,
            ),
            final(self).staged@ == absorb_stage(
                old(self).staged@,
                data@,
                old(self).block_size as int,
            ),
    {
        let ghost b: int = self.block_size as int;
        let ghost bs0: usize = self.block_size;
        let ghost stage0: Seq<u8> = self.staged@;
        let mut out: Vec<Vec<u8>> = Vec::new();
        let mut i: usize = 0;
        proof {
            assert(data@.subrange(0, data@.len() as int) =~= data@);
            assert(out@.map_values(|v: Vec<u8>| v@) =~= Seq::<Seq<u8>>::empty());
            assert(Seq::<Seq<u8>>::empty() + absorb_blocks(self.staged@, data@, b) =~= absorb_blocks(
                self.staged@,
                data@,
                b,
            ));
        }
        while i < data.len()
            invariant
                i <= data@.len(),
                self.wf(),
                self.block_size == bs0,
                b == bs0 as int,
                absorb_blocks(stage0, data@, b) == out@.map_values(|v: Vec<u8>| v@)
                    + absorb_blocks(self.staged@, data@.subrange(i as int, data@.len() as int), b),
                absorb_stage(stage0, data@, b) == absorb_stage(
                    self.staged@,
                    data@.subrange(i as int, data@.len() as int),
                    b,
                ),
            decreases data@.len() - i,
        {
            let ghost rem: Seq<u8> = data@.subrange(i as int, data@.len() as int);
            let ghost stage_in: Seq<u8> = self.staged@;
            proof {
                assert(rem[0] == data@[i as int]);
                assert(rem.drop_first() =~= data@.subrange(i as int + 1, data@.len() as int));
                assert(stage_in.push(data@[i as int]) == stage_in.push(rem[0]));
            }
            self.staged.push(data[i]);
            if self.staged.len() == self.block_size {
                let mut full: Vec<u8> = Vec::new();
                core::mem::swap(&mut self.staged, &mut full);
                out.push(full);
                proof {
                    let f = |v: Vec<u8>| v@;
                    assert(out@.map_values(f) =~= out@.subrange(0, out@.len() - 1).map_values(f)
                        + seq![stage_in.push(rem[0])]);
                    assert(out@.subrange(0, out@.len() - 1) =~= out@.drop_last());
                    assert((out@.drop_last().map_values(f) + seq![stage_in.push(rem[0])])
                        + absorb_blocks(self.staged@, rem.drop_first(), b) =~= out@.drop_last().map_values(
                        f,
                    ) + (seq![stage_in.push(rem[0])] + absorb_blocks(
                        self.staged@,
                        rem.drop_first(),
                        b,
                    )));
                }
            }
            i = i + 1;
        }
        proof {
            assert(data@.subrange(i as int, data@.len() as int).len() == 0);
            assert(out@.map_values(|v: Vec<u8>| v@) + Seq::<Seq<u8>>::empty() =~= out@.map_values(
                |v: Vec<u8>| v@,
            ));
        }
        out
    }

    /// Emit any partial trailing block, zero-padded to a whole block, and
    /// leave the staging buffer empty. With nothing staged, no transfer is
    /// emitted at all, so flushing twice in a row performs zero transfers
    /// the second time.
    pub fn flush(&mut self) -> (out: Option<Vec<u8>>)
        requires
            old(self).wf(),
        ensures
            final(self).wf(),
            final(self).block_size == old(self).block_size,
            final(self).staged@.len() == 0,
            old(self).staged@.len() == 0 ==> out is None,
            old(self).staged@.len() > 0 ==> (out matches Some(blk) && blk@ == padded_block(
                old(self).staged@,
                old(self).block_size as int,
            ) && blk@.len() == old(self).block_size),
    {
        if self.staged.len() == 0 {
            None
        } else {
            let ghost stage0: Seq<u8> = self.staged@;
            let ghost bs0: usize = self.block_size;
            while self.staged.len() < self.block_size
                invariant
                    self.block_size == bs0,
                    stage0.len() <= self.staged@.len() <= self.block_size,
                    self.staged@.subrange(0, stage0.len() as int) == stage0,
                    forall|j: int|
                        stage0.len() <= j < self.staged@.len() ==> self.staged@[j] == 0u8,
                decreases self.block_size - self.staged@.len(),
            {
                self.staged.push(0u8);
                proof {
                    assert(self.staged@.subrange(0, stage0.len() as int) =~= stage0);
                }
            }
            let mut full: Vec<u8> = Vec::new();
            core::mem::swap(&mut self.staged, &mut full);
            proof {
                assert(full@ =~= padded_block(stage0, bs0 as int));
            }
            Some(full)
        }
    }
}

} // verus!
