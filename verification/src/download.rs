//! Download progress tracking.
//!
//! The host streams an asset in bounded chunks and reports each chunk
//! here. The handle owns the transfer's book-keeping: the destination
//! path, the bytes written so far, and the announced total, if any.
//! Progress is monotonically non-decreasing; any interruption ends in
//! `abort`, which hands the host the order to delete the partial file —
//! no partial file survives a failed transfer, at any byte offset.

use vstd::prelude::*;
use crate::errors::UpdateError;

verus! {

/// One progress report, delivered to the UI after a chunk lands.
pub struct Progress {
    pub bytes_so_far: u64,
    pub total_bytes: Option<u64>,
}

/// The order to remove a partial file after a failed or cancelled
/// transfer.
pub struct CleanupAction {
    pub delete_path: String,
}

/// An in-flight transfer: destination, bytes written, announced size.
pub struct DownloadHandle {
    pub destination_path: String,
    pub bytes_written: u64,
    pub total_bytes: Option<u64>,
}

/// A chunk is acceptable while the byte counter cannot overflow and the
/// announced total, if any, is not exceeded.
pub open spec fn chunk_fits(h: DownloadHandle, chunk_len: u64) -> bool {
    &&& h.bytes_written + chunk_len <= u64::MAX
    &&& match h.total_bytes {
        Some(t) => h.bytes_written + chunk_len <= t,
        None => true,
    }
}

impl DownloadHandle {
    /// Opens a transfer towards `destination_path`; nothing is written
    /// yet.
    pub fn begin(destination_path: String, total_bytes: Option<u64>) -> (h: DownloadHandle)
        ensures
            h.destination_path@ == destination_path@,
            h.bytes_written == 0,
            h.total_bytes == total_bytes,
    {
        DownloadHandle { destination_path, bytes_written: 0, total_bytes }
    }

    /// Accounts one received chunk and yields the progress report for it.
    /// Progress never decreases. A chunk that would exceed the announced
    /// total (or overflow the counter) is refused with `SizeMismatch` and
    /// leaves the handle unchanged; the caller must then `abort`.
    pub fn on_chunk(&mut self, chunk_len: u64) -> (r: Result<Progress, UpdateError>)
        ensures
            final(self).destination_path@ == old(self).destination_path@,
            final(self).total_bytes == old(self).total_bytes,
            r.is_ok() <==> chunk_fits(*old(self), chunk_len),
            match r {
                Ok(p) => {
                    &&& final(self).bytes_written == old(self).bytes_written + chunk_len
                    &&& p.bytes_so_far == final(self).bytes_written
                    &&& p.bytes_so_far >= old(self).bytes_written
                    &&& p.total_bytes == final(self).total_bytes
                },
                Err(e) => e == UpdateError::SizeMismatch && final(self).bytes_written == old(
                    self,
                ).bytes_written,
            },
    {
        if chunk_len > u64::MAX - self.bytes_written {
            return Err(UpdateError::SizeMismatch);
        }
        let next = self.bytes_written + chunk_len;
        if let Some(t) = self.total_bytes {
            if next > t {
                return Err(UpdateError::SizeMismatch);
            }
        }
        self.bytes_written = next;
        Ok(Progress { bytes_so_far: next, total_bytes: self.total_bytes })
    }

    /// Closes a completed transfer: the byte count must equal the
    /// announced total, when one was announced; otherwise the transfer
    /// fails with `SizeMismatch` and the caller must `abort`.
    pub fn finish(&self) -> (r: Result<u64, UpdateError>)
        ensures
            r.is_ok() <==> (match self.total_bytes {
                Some(t) => self.bytes_written == t,
                None => true,
            }),
            match r {
                Ok(n) => n == self.bytes_written,
                Err(e) => e == UpdateError::SizeMismatch,
            },
    {
        match self.total_bytes {
            Some(t) => {
                if self.bytes_written == t {
                    Ok(self.bytes_written)
                } else {
                    Err(UpdateError::SizeMismatch)
                }
            },
            None => Ok(self.bytes_written),
        }
    }

    /// Tears down an interrupted transfer, whatever its byte offset: the
    /// handle is consumed and the host is ordered to delete the partial
    /// file at the destination path.
    pub fn abort(self) -> (c: CleanupAction)
        ensures
            c.delete_path@ == self.destination_path@,
    {
        CleanupAction { delete_path: self.destination_path }
    }
}

/// The bounded buffer of progress reports between the transfer and a
/// possibly slow consumer: when full, the oldest report is dropped, so
/// the transfer never stalls and memory never grows without bound.
pub struct ProgressQueue {
    pub capacity: usize,
    pub items: Vec<Progress>,
}

/// The queue never holds more than its capacity.
pub open spec fn queue_wf(q: ProgressQueue) -> bool {
    q.capacity >= 1 && q.items@.len() <= q.capacity
}

impl ProgressQueue {
    /// An empty queue with the given bound.
    pub fn new(capacity: usize) -> (q: ProgressQueue)
        requires
            capacity >= 1,
        ensures
            queue_wf(q),
            q.capacity == capacity,
            q.items@.len() == 0,
    {
        ProgressQueue { capacity, items: Vec::new() }
    }

    /// Buffers the newest report; when the queue is full the oldest
    /// report is dropped first. The bound always holds and the newest
    /// report is always kept.
    pub fn push(&mut self, p: Progress)
        requires
            queue_wf(*old(self)),
        ensures
            queue_wf(*final(self)),
            final(self).capacity == old(self).capacity,
            final(self).items@.len() > 0,
            final(self).items@.last() == p,
            old(self).items@.len() < old(self).capacity ==> final(self).items@ == old(
                self,
            ).items@.push(p),
            old(self).items@.len() == old(self).capacity ==> final(self).items@ == old(
                self,
            ).items@.skip(1).push(p),
    {
        if self.items.len() == self.capacity {
            self.items.remove(0);
            proof {
                assert(self.items@ =~= old(self).items@.skip(1));
            }
        }
        self.items.push(p);
    }

    /// Hands the consumer the oldest buffered report, if any.
    pub fn pop(&mut self) -> (r: Option<Progress>)
        ensures
            final(self).capacity == old(self).capacity,
            old(self).items@.len() == 0 ==> r is None && final(self).items@ == old(self).items@,
            old(self).items@.len() > 0 ==> (match r {
                Some(p) => p == old(self).items@[0] && final(self).items@ == old(
                    self,
                ).items@.skip(1),
                None => false,
            }),
    {
        if self.items.len() == 0 {
            None
        } else {
            let p = self.items.remove(0);
            proof {
                assert(self.items@ =~= old(self).items@.skip(1));
            }
            Some(p)
        }
    }
}

/// The byte count a transfer reports after its first `k` chunks: the
/// prefix sum of the chunk lengths (`on_chunk` accumulates exactly the
/// chunk length each time).
pub open spec fn bytes_after(chunks: Seq<u64>, k: int) -> int
    decreases k,
{
    if k <= 0 {
        0
    } else {
        bytes_after(chunks, k - 1) + (if k <= chunks.len() {
            chunks[k - 1] as int
        } else {
            0
        })
    }
}

/// Over a whole transfer the reported progress sequence is monotonically
/// non-decreasing: a later report never shows fewer bytes.
pub proof fn lemma_progress_monotone(chunks: Seq<u64>, k1: int, k2: int)
    requires
        k1 <= k2,
    ensures
        bytes_after(chunks, k1) <= bytes_after(chunks, k2),
    decreases k2 - k1,
{
    if k1 < k2 {
        lemma_progress_monotone(chunks, k1, k2 - 1);
    }
}

} // verus!
