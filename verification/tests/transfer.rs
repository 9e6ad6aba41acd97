use slkrd::error::FileTransferError;
use slkrd::transfer::{ProgressEvent, TransferState, PROGRESS_INTERVAL_MS};

#[test]
fn a_file_of_150000_bytes_moves_in_three_chunks() {
    let mut state = TransferState::new(150000, 65536, 0);
    let mut chunks = Vec::new();
    while !state.is_complete() {
        let n = state.next_request();
        chunks.push(n);
        state.record(n, 0);
    }
    assert_eq!(chunks, vec![65536, 65536, 18928]);
    assert_eq!(state.bytes_moved(), 150000);
    assert_eq!(
        state.finish(0),
        Ok(ProgressEvent { bytes_moved: 150000, total_bytes: 150000, elapsed_ms: 0 })
    );
}

#[test]
fn a_new_transfer_has_moved_nothing() {
    let state = TransferState::new(10, 4, 1234);
    assert_eq!(state.bytes_moved(), 0);
    assert_eq!(state.total_bytes(), 10);
    assert!(!state.is_complete());
    assert_eq!(state.next_request(), 4);
    assert_eq!(state.elapsed(1234), 0);
    assert_eq!(state.elapsed(2234), 1000);
}

#[test]
fn an_empty_file_is_complete_at_once() {
    let state = TransferState::new(0, 65536, 5);
    assert!(state.is_complete());
    assert_eq!(state.next_request(), 0);
    assert_eq!(state.finish(9), Ok(ProgressEvent { bytes_moved: 0, total_bytes: 0, elapsed_ms: 4 }));
}

#[test]
fn the_last_request_is_what_is_left() {
    let mut state = TransferState::new(10, 4, 0);
    state.record(4, 0);
    assert_eq!(state.next_request(), 4);
    state.record(4, 0);
    assert_eq!(state.next_request(), 2);
    state.record(2, 0);
    assert_eq!(state.next_request(), 0);
    assert!(state.is_complete());
}

#[test]
fn short_reads_are_counted_as_they_come() {
    let mut state = TransferState::new(10, 4, 0);
    state.record(1, 0);
    assert_eq!(state.bytes_moved(), 1);
    assert_eq!(state.next_request(), 4);
    state.record(3, 0);
    assert_eq!(state.bytes_moved(), 4);
    state.record(4, 0);
    state.record(1, 0);
    assert_eq!(state.bytes_moved(), 9);
    assert_eq!(state.next_request(), 1);
}

#[test]
fn moving_nothing_changes_nothing() {
    let mut state = TransferState::new(10, 4, 0);
    state.record(3, 50);
    assert_eq!(state.record(0, 5000), None);
    assert_eq!(state.bytes_moved(), 3);
    // the pacing clock was not touched either: an event is due at once
    assert!(state.record(1, 100).is_some());
}

#[test]
fn a_stream_that_ends_early_is_incomplete() {
    let mut state = TransferState::new(150000, 65536, 0);
    state.record(65536, 0);
    state.record(1000, 0);
    assert_eq!(state.finish(0), Err(FileTransferError::IncompleteTransfer(66536, 150000)));
    let untouched = TransferState::new(1, 65536, 0);
    assert_eq!(untouched.finish(0), Err(FileTransferError::IncompleteTransfer(0, 1)));
}

#[test]
fn progress_is_paced() {
    let mut state = TransferState::new(1000, 10, 1000);
    assert_eq!(state.record(10, 1000), None);
    assert_eq!(state.record(10, 1000 + PROGRESS_INTERVAL_MS - 1), None);
    assert_eq!(
        state.record(10, 1000 + PROGRESS_INTERVAL_MS),
        Some(ProgressEvent { bytes_moved: 30, total_bytes: 1000, elapsed_ms: 100 })
    );
    // the interval starts anew at the event
    assert_eq!(state.record(10, 1199), None);
    assert_eq!(
        state.record(10, 1200),
        Some(ProgressEvent { bytes_moved: 50, total_bytes: 1000, elapsed_ms: 200 })
    );
    assert_eq!(
        state.record(10, 9000),
        Some(ProgressEvent { bytes_moved: 60, total_bytes: 1000, elapsed_ms: 8000 })
    );
}

#[test]
fn a_clock_that_steps_back_emits_nothing() {
    let mut state = TransferState::new(1000, 10, 1000);
    assert_eq!(state.record(10, 0), None);
    assert_eq!(state.record(10, 999), None);
    assert_eq!(state.elapsed(0), 0);
    assert_eq!(state.bytes_moved(), 20);
}

#[test]
fn progress_never_goes_back_and_ends_at_the_total() {
    let total: u64 = 1_000_000;
    let mut state = TransferState::new(total, 4096, 0);
    let mut now: u64 = 0;
    let mut last: u64 = 0;
    let mut seed: u64 = 7;
    let mut events = 0;
    while !state.is_complete() {
        seed = seed.wrapping_mul(6364136223846793005).wrapping_add(1442695040888963407);
        let want = state.next_request();
        let n = 1 + (seed >> 33) as usize % want;
        now += (seed >> 20) % 60;
        if let Some(event) = state.record(n, now) {
            assert!(event.bytes_moved >= last);
            assert!(event.bytes_moved <= total);
            assert_eq!(event.bytes_moved, state.bytes_moved());
            assert_eq!(event.total_bytes, total);
            assert_eq!(event.elapsed_ms, now);
            last = event.bytes_moved;
            events += 1;
        }
    }
    assert!(events > 0);
    let end = state.finish(now).unwrap();
    assert_eq!(end.bytes_moved, total);
    assert!(end.bytes_moved >= last);
}

#[test]
fn a_chunk_size_of_zero_asks_for_nothing() {
    let state = TransferState::new(10, 0, 0);
    assert_eq!(state.next_request(), 0);
    assert!(!state.is_complete());
    assert_eq!(state.finish(0), Err(FileTransferError::IncompleteTransfer(0, 10)));
}
