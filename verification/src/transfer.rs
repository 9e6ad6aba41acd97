//! The chunked transfer engine: the accounting of one transfer.
//!
//! A `TransferState` is owned by the one transfer it accounts for. The
//! caller moves the bytes; the state says how many to ask for next, counts
//! what was moved, paces the progress events and, at the end, says whether
//! every announced byte arrived.

use vstd::prelude::*;
use crate::error::FileTransferError;

verus! {

/// The least number of milliseconds between two progress events.
pub const PROGRESS_INTERVAL_MS: u64 = 100;

/// One report of how far a transfer has come.
#[derive(Clone, Copy, Debug, PartialEq, Eq, Structural)]
pub struct ProgressEvent {
    pub bytes_moved: u64,
    pub total_bytes: u64,
    pub elapsed_ms: u64,
}

/// The mathematical state of one transfer. Times are milliseconds on the
/// caller's clock.
pub struct TransferModel {
    pub bytes_moved: u64,
    pub total_bytes: u64,
    pub started_at: u64,
    pub last_update: u64,
    pub chunk_size: usize,
}

impl TransferModel {
    /// Never more is counted than was announced.
    pub open spec fn well_formed(self) -> bool {
        self.bytes_moved <= self.total_bytes
    }

    /// Whether every announced byte has been moved.
    pub open spec fn is_complete(self) -> bool {
        self.bytes_moved == self.total_bytes
    }

    /// The number of bytes to ask for next: a chunk, or what is left of the
    /// file if that is less.
    pub open spec fn next_request(self) -> nat {
        let remaining = (self.total_bytes - self.bytes_moved) as nat;
        if remaining < self.chunk_size {
            remaining
        } else {
            self.chunk_size as nat
        }
    }

    /// Whether a progress event is due at time `now`.
    pub open spec fn due(self, now: u64) -> bool {
        now - self.last_update >= PROGRESS_INTERVAL_MS
    }

    /// The time since the transfer began; zero if the clock stepped back.
    pub open spec fn elapsed(self, now: u64) -> u64 {
        if now >= self.started_at {
            (now - self.started_at) as u64
        } else {
            0
        }
    }

    /// The state after `n` bytes were moved at time `now`. Moving nothing
    /// changes nothing.
    pub open spec fn after_chunk(self, n: usize, now: u64) -> TransferModel {
        if n == 0 {
            self
        } else {
            TransferModel {
                bytes_moved: (self.bytes_moved + n) as u64,
                last_update: if self.due(now) {
                    now
                } else {
                    self.last_update
                },
                ..self
            }
        }
    }

    /// The progress event, if any, that moving `n` bytes at time `now`
    /// gives rise to.
    pub open spec fn event_after_chunk(self, n: usize, now: u64) -> Option<ProgressEvent> {
        if n > 0 && self.due(now) {
            Some(
                ProgressEvent {
                    bytes_moved: (self.bytes_moved + n) as u64,
                    total_bytes: self.total_bytes,
                    elapsed_ms: self.elapsed(now),
                },
            )
        } else {
            None
        }
    }

    /// How the transfer ends if the stream ends now: with a last progress
    /// event if every byte arrived, else as an incomplete transfer that
    /// names both counts.
    pub open spec fn final_result(self, now: u64) -> Result<ProgressEvent, FileTransferError> {
        if self.is_complete() {
            Ok(
                ProgressEvent {
                    bytes_moved: self.bytes_moved,
                    total_bytes: self.total_bytes,
                    elapsed_ms: self.elapsed(now),
                },
            )
        } else {
            Err(FileTransferError::IncompleteTransfer(self.bytes_moved, self.total_bytes))
        }
    }
}

/// Whether each chunk of a row, given as its length and the time it was
/// moved at, is no longer than what was asked for.
pub open spec fn admissible(s: TransferModel, chunks: Seq<(usize, u64)>) -> bool
    decreases chunks.len(),
{
    chunks.len() == 0 || (chunks[0].0 <= s.next_request() && admissible(
        s.after_chunk(chunks[0].0, chunks[0].1),
        chunks.drop_first(),
    ))
}

/// The state after a row of chunks.
pub open spec fn state_after(s: TransferModel, chunks: Seq<(usize, u64)>) -> TransferModel
    decreases chunks.len(),
{
    if chunks.len() == 0 {
        s
    } else {
        state_after(s.after_chunk(chunks[0].0, chunks[0].1), chunks.drop_first())
    }
}

/// The progress events that a row of chunks gives rise to, in order.
pub open spec fn progress_trace(s: TransferModel, chunks: Seq<(usize, u64)>) -> Seq<
    ProgressEvent,
>
    decreases chunks.len(),
{
    if chunks.len() == 0 {
        Seq::empty()
    } else {
        let rest = progress_trace(
            s.after_chunk(chunks[0].0, chunks[0].1),
            chunks.drop_first(),
        );
        match s.event_after_chunk(chunks[0].0, chunks[0].1) {
            Some(event) => seq![event] + rest,
            None => rest,
        }
    }
}

/// The accounting of one transfer.
#[derive(Debug)]
pub struct TransferState {
    bytes_moved: u64,
    total_bytes: u64,
    started_at: u64,
    last_update: u64,
    chunk_size: usize,
}

impl View for TransferState {
    type V = TransferModel;

    closed spec fn view(&self) -> TransferModel {
        TransferModel {
            bytes_moved: self.bytes_moved,
            total_bytes: self.total_bytes,
            started_at: self.started_at,
            last_update: self.last_update,
            chunk_size: self.chunk_size,
        }
    }
}

impl TransferState {
    /// The invariant of the accounting: its model is well formed.
    pub open spec fn wf(&self) -> bool {
        self@.well_formed()
    }

    /// The accounting of a transfer of `total_bytes` bytes, moved in chunks
    /// of at most `chunk_size`, that begins at time `now`.
    pub fn new(total_bytes: u64, chunk_size: usize, now: u64) -> (state: TransferState)
        ensures
            state.wf(),
            state@ == (TransferModel {
                bytes_moved: 0,
                total_bytes,
                started_at: now,
                last_update: now,
                chunk_size,
            }),
    {
        TransferState {
            bytes_moved: 0,
            total_bytes,
            started_at: now,
            last_update: now,
            chunk_size,
        }
    }

    /// The number of bytes moved so far.
    pub fn bytes_moved(&self) -> (n: u64)
        ensures
            n == self@.bytes_moved,
    {
        self.bytes_moved
    }

    /// The number of bytes announced.
    pub fn total_bytes(&self) -> (n: u64)
        ensures
            n == self@.total_bytes,
    {
        self.total_bytes
    }

    /// Whether every announced byte has been moved.
    pub fn is_complete(&self) -> (done: bool)
        ensures
            done == self@.is_complete(),
    {
        self.bytes_moved == self.total_bytes
    }

    /// The number of bytes to ask for next.
    pub fn next_request(&self) -> (n: usize)
        requires
            self.wf(),
        ensures
            n == self@.next_request(),
    {
        let remaining: u64 = self.total_bytes - self.bytes_moved;
        if remaining < self.chunk_size as u64 {
            remaining as usize
        } else {
            self.chunk_size
        }
    }

    /// Counts `n` bytes moved at time `now`, and answers with the progress
    /// event to emit, if one is due. A read or a write never moves more than
    /// was asked for, so `n` is at most `next_request()`.
    pub fn record(&mut self, n: usize, now: u64) -> (event: Option<ProgressEvent>)
        requires
            old(self).wf(),
            n <= old(self)@.next_request(),
        ensures
            final(self).wf(),
            final(self)@ == old(self)@.after_chunk(n, now),
            event == old(self)@.event_after_chunk(n, now),
    {
        if n == 0 {
            return None;
        }
        let due = now >= self.last_update && now - self.last_update >= PROGRESS_INTERVAL_MS;
        self.bytes_moved = self.bytes_moved + n as u64;
        if due {
            self.last_update = now;
            Some(
                ProgressEvent {
                    bytes_moved: self.bytes_moved,
                    total_bytes: self.total_bytes,
                    elapsed_ms: self.elapsed(now),
                },
            )
        } else {
            None
        }
    }

    /// The time since the transfer began.
    pub fn elapsed(&self, now: u64) -> (ms: u64)
        ensures
            ms == self@.elapsed(now),
    {
        if now >= self.started_at {
            now - self.started_at
        } else {
            0
        }
    }

    /// Ends the transfer at time `now`: the last progress event if every
    /// announced byte was moved, `IncompleteTransfer` with both counts if
    /// not.
    pub fn finish(&self, now: u64) -> (result: Result<ProgressEvent, FileTransferError>)
        ensures
            result == self@.final_result(now),
    {
        if self.bytes_moved == self.total_bytes {
            Ok(
                ProgressEvent {
                    bytes_moved: self.bytes_moved,
                    total_bytes: self.total_bytes,
                    elapsed_ms: self.elapsed(now),
                },
            )
        } else {
            Err(FileTransferError::IncompleteTransfer(self.bytes_moved, self.total_bytes))
        }
    }
}

/// Along any admissible row of chunks the accounting stays well formed, and
/// every progress event reports a count between the count before the row
/// and the count after it.
pub proof fn lemma_progress_bounds(s: TransferModel, chunks: Seq<(usize, u64)>)
    requires
        s.well_formed(),
        admissible(s, chunks),
    ensures
        state_after(s, chunks).well_formed(),
        state_after(s, chunks).total_bytes == s.total_bytes,
        s.bytes_moved <= state_after(s, chunks).bytes_moved,
        forall|i: int|
            0 <= i < progress_trace(s, chunks).len() ==> {
                &&& s.bytes_moved <= (#[trigger] progress_trace(s, chunks)[i]).bytes_moved
                &&& progress_trace(s, chunks)[i].bytes_moved <= state_after(
                    s,
                    chunks,
                ).bytes_moved
                &&& progress_trace(s, chunks)[i].total_bytes == s.total_bytes
            },
    decreases chunks.len(),
{
    if chunks.len() > 0 {
        let next = s.after_chunk(chunks[0].0, chunks[0].1);
        let rest = progress_trace(next, chunks.drop_first());
        let trace = progress_trace(s, chunks);
        lemma_progress_bounds(next, chunks.drop_first());
        assert forall|i: int| 0 <= i < trace.len() implies {
            &&& s.bytes_moved <= (#[trigger] trace[i]).bytes_moved
            &&& trace[i].bytes_moved <= state_after(s, chunks).bytes_moved
            &&& trace[i].total_bytes == s.total_bytes
        } by {
            match s.event_after_chunk(chunks[0].0, chunks[0].1) {
                Some(event) => {
                    assert(trace == seq![event] + rest);
                    if i > 0 {
                        assert(trace[i] == rest[i - 1]);
                    }
                },
                None => {},
            }
        }
    }
}

/// Progress never goes back: of two events of one transfer, the later one
/// reports at least as many bytes as the earlier one.
pub proof fn lemma_progress_monotonic(s: TransferModel, chunks: Seq<(usize, u64)>)
    requires
        s.well_formed(),
        admissible(s, chunks),
    ensures
        forall|i: int, j: int|
            0 <= i <= j < progress_trace(s, chunks).len() ==> (#[trigger] progress_trace(
                s,
                chunks,
            )[i]).bytes_moved <= (#[trigger] progress_trace(s, chunks)[j]).bytes_moved,
    decreases chunks.len(),
{
    if chunks.len() > 0 {
        let next = s.after_chunk(chunks[0].0, chunks[0].1);
        let rest = progress_trace(next, chunks.drop_first());
        lemma_progress_monotonic(next, chunks.drop_first());
        lemma_progress_bounds(next, chunks.drop_first());
        let trace = progress_trace(s, chunks);
        assert forall|i: int, j: int| 0 <= i <= j < trace.len() implies (#[trigger] trace[i]).bytes_moved
            <= (#[trigger] trace[j]).bytes_moved by {
            match s.event_after_chunk(chunks[0].0, chunks[0].1) {
                Some(event) => {
                    assert(trace == seq![event] + rest);
                    if i > 0 {
                        assert(trace[i] == rest[i - 1]);
                        assert(trace[j] == rest[j - 1]);
                    } else if j > 0 {
                        assert(trace[j] == rest[j - 1]);
                    }
                },
                None => {},
            }
        }
    }
}

/// On a transfer that ends well, the last event reports the announced size,
/// and no earlier event reports more.
pub proof fn lemma_final_event_reports_total(
    s: TransferModel,
    chunks: Seq<(usize, u64)>,
    now: u64,
)
    requires
        s.well_formed(),
        admissible(s, chunks),
        state_after(s, chunks).final_result(now) is Ok,
    ensures
        state_after(s, chunks).final_result(now).unwrap().bytes_moved == s.total_bytes,
        forall|i: int|
            0 <= i < progress_trace(s, chunks).len() ==> (#[trigger] progress_trace(
                s,
                chunks,
            )[i]).bytes_moved <= s.total_bytes,
{
    lemma_progress_bounds(s, chunks);
}

} // verus!
