//! Decisions of the batched-write loop.
//!
//! The store accepts at most 25 write requests in one batch call, and a
//! batch can come back with some requests unprocessed; those are retried,
//! at most five rounds in all. The batch calls themselves are I/O; the
//! chunking and the retry decision are decided here.

use vstd::prelude::*;

verus! {

/// The largest number of write requests one batch call may carry.
pub const BATCH_LIMIT: usize = 25;

/// The half-open spans `[start, end)` into a list of `len` pending
/// requests that one round of batch calls sends: consecutive, in order,
/// covering everything, each of at most 25 requests and all but the last
/// exactly 25.
pub fn chunk_spans(len: usize) -> (r: Vec<(usize, usize)>)
    ensures
        len == 0 ==> r@.len() == 0,
        forall|k: int| 0 <= k < r@.len() ==> (#[trigger] r@[k]).0 == k * 25,
        forall|k: int|
            0 <= k < r@.len() ==> (#[trigger] r@[k]).1 == (if k * 25 + 25 <= len {
                k * 25 + 25
            } else {
                len as int
            }),
        r@.len() > 0 ==> r@[r@.len() - 1].1 == len,
        forall|k: int| 0 <= k < r@.len() ==> (#[trigger] r@[k]).0 < r@[k].1,
{
    let mut r: Vec<(usize, usize)> = Vec::new();
    let mut start: usize = 0;
    while start < len
        invariant
            start <= len,
            start == (if r@.len() == 0 {
                0int
            } else {
                r@[r@.len() - 1].1 as int
            }),
            start < len ==> start == r@.len() * 25,
            forall|k: int| 0 <= k < r@.len() ==> (#[trigger] r@[k]).0 == k * 25,
            forall|k: int|
                0 <= k < r@.len() ==> (#[trigger] r@[k]).1 == (if k * 25 + 25 <= len {
                    k * 25 + 25
                } else {
                    len as int
                }),
            forall|k: int| 0 <= k < r@.len() ==> (#[trigger] r@[k]).0 < r@[k].1,
        decreases len - start,
    {
        let end: usize = if len - start > BATCH_LIMIT {
            start + BATCH_LIMIT
        } else {
            len
        };
        r.push((start, end));
        start = end;
    }
    r
}

/// Whether the batch loop runs one more round: only while requests are
/// still pending and fewer than five rounds have run.
pub fn should_retry_batch(pending: usize, rounds_done: u32) -> (r: bool)
    ensures
        r == (pending > 0 && rounds_done < 5),
{
    pending > 0 && rounds_done < 5
}

} // verus!
