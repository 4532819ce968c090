//! Background load task: churns a scratch buffer at fixed intervals to keep
//! the cooperative scheduler busy. The copy itself is the only decision-free
//! work; the timer wait around it belongs to the scheduler shell.

use vstd::prelude::*;

verus! {

/// Size of the scratch buffer the background task churns.
pub const BACKGROUND_BUF_LEN: usize = 2048;

/// Interval between churn steps, in microseconds.
pub const CHURN_INTERVAL_MICROS: u64 = 5;

/// One churn step: copy the source buffer into a fresh buffer of the same
/// length. The result carries exactly the source bytes.
pub fn churn_step(src: &Vec<u8>) -> (dst: Vec<u8>)
    ensures
        dst@ == src@,
{
    let mut dst: Vec<u8> = Vec::new();
    let mut i: usize = 0;
    while i < src.len()
        invariant
            i <= src.len(),
            dst@ == src@.subrange(0, i as int),
        decreases src.len() - i,
    {
        dst.push(src[i]);
        i = i + 1;
        proof {
            assert(dst@ =~= src@.subrange(0, i as int));
        }
    }
    proof {
        assert(dst@ =~= src@);
    }
    dst
}

} // verus!
