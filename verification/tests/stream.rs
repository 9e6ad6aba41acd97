use slkrd::error::FileTransferError;
use slkrd::session::LoopbackSession;
use slkrd::stream::{is_name_taken, receive_stream, send_stream};
use slkrd::wire::TransferHeader;

fn pattern(len: usize) -> Vec<u8> {
    let mut seed: u64 = 0x2545F4914F6CDD1D;
    let mut out = Vec::with_capacity(len);
    for _ in 0..len {
        seed ^= seed << 13;
        seed ^= seed >> 7;
        seed ^= seed << 17;
        out.push((seed >> 24) as u8);
    }
    out
}

fn round_trip(size: usize, send_chunk: usize, receive_chunk: usize) {
    let source = pattern(size);
    let header = TransferHeader::new(size as u64, "payload.bin");
    let mut session = LoopbackSession::new();
    let report = send_stream(&mut session, &header, &source, send_chunk);
    assert_eq!(report.outcome, Ok(size as u64));
    assert_eq!(report.chunks.iter().sum::<usize>(), size);
    assert!(report.chunks.iter().all(|n| *n > 0 && *n <= send_chunk));
    assert_eq!(session.pending_len(), 16 + 11 + size);
    let received = receive_stream(&mut session, receive_chunk, &Vec::new()).unwrap();
    assert_eq!(received.header.file_size, size as u64);
    assert_eq!(received.header.filename, b"payload.bin".to_vec());
    assert_eq!(received.contents, source);
    assert_eq!(session.pending_len(), 0);
}

#[test]
fn round_trip_of_an_empty_file() {
    round_trip(0, 65536, 65536);
}

#[test]
fn round_trip_of_one_byte() {
    round_trip(1, 65536, 65536);
}

#[test]
fn round_trip_of_one_byte_less_than_a_chunk() {
    round_trip(65535, 65536, 65536);
}

#[test]
fn round_trip_of_exactly_one_chunk() {
    round_trip(65536, 65536, 65536);
}

#[test]
fn round_trip_of_one_byte_more_than_a_chunk() {
    round_trip(65537, 65536, 65536);
}

#[test]
fn round_trip_of_several_megabytes() {
    round_trip(3 * 1024 * 1024 + 17, 65536, 65536);
}

#[test]
fn round_trip_with_unlike_chunk_sizes() {
    round_trip(100_000, 7, 65536);
    round_trip(100_000, 65536, 1);
    round_trip(100_000, 1000, 999);
    round_trip(5, usize::MAX, usize::MAX);
}

#[test]
fn scenario_150000_bytes_in_chunks_of_65536() {
    assert_eq!(slkrd::passcode::validate_passcode("482913"), Ok(()));
    let source = pattern(150000);
    let header = TransferHeader::new(150000, "scenario.dat");
    let mut session = LoopbackSession::new();
    let report = send_stream(&mut session, &header, &source, 65536);
    assert_eq!(report.chunks, vec![65536, 65536, 18928]);
    assert_eq!(report.outcome, Ok(150000));
    let wire = session.pending();
    assert_eq!(&wire[..8], &150000u64.to_le_bytes());
    assert_eq!(&wire[28..], &source[..]);
    let received = receive_stream(&mut session, 65536, &Vec::new()).unwrap();
    assert_eq!(received.header.file_size, 150000);
    assert_eq!(received.contents.len(), 150000);
    assert_eq!(received.contents, source);
}

#[test]
fn the_header_goes_out_once_before_the_payload() {
    let source = vec![1u8, 2, 3, 4, 5];
    let header = TransferHeader::new(5, "f");
    let mut session = LoopbackSession::new();
    let report = send_stream(&mut session, &header, &source, 2);
    let mut expected = header.encode();
    expected.extend_from_slice(&source);
    assert_eq!(session.pending(), expected);
    assert_eq!(report.chunks, vec![2, 2, 1]);
}

#[test]
fn two_files_follow_each_other_on_one_session() {
    let first = pattern(1000);
    let second = pattern(77);
    let mut session = LoopbackSession::new();
    send_stream(&mut session, &TransferHeader::new(1000, "first"), &first, 64);
    send_stream(&mut session, &TransferHeader::new(77, "second"), &second, 64);
    let a = receive_stream(&mut session, 128, &Vec::new()).unwrap();
    assert_eq!(a.header.filename, b"first".to_vec());
    assert_eq!(a.contents, first);
    let b = receive_stream(&mut session, 128, &Vec::new()).unwrap();
    assert_eq!(b.header.filename, b"second".to_vec());
    assert_eq!(b.contents, second);
    assert_eq!(session.pending_len(), 0);
}

#[test]
fn a_stream_closed_early_fails_with_both_counts() {
    let source = pattern(150000);
    let header = TransferHeader::new(150000, "cut.dat");
    let mut whole = LoopbackSession::new();
    send_stream(&mut whole, &header, &source, 65536);
    let wire = whole.pending();
    let header_len = header.encode().len();
    for k in [0usize, 1, 65535, 65536, 65537, 149_999] {
        let mut cut = LoopbackSession::from_bytes(wire[..header_len + k].to_vec());
        let result = receive_stream(&mut cut, 65536, &Vec::new());
        assert_eq!(
            result.unwrap_err(),
            FileTransferError::IncompleteTransfer(k as u64, 150000),
            "cut after {} bytes",
            k
        );
        assert_eq!(cut.pending_len(), 0);
    }
}

#[test]
fn a_stream_closed_inside_the_header_is_a_transfer_error() {
    let wire = TransferHeader::new(4, "name").encode();
    for cut in 0..wire.len() {
        let mut session = LoopbackSession::from_bytes(wire[..cut].to_vec());
        let result = receive_stream(&mut session, 65536, &Vec::new());
        assert_eq!(result.unwrap_err(), FileTransferError::TransferError);
        assert_eq!(session.pending_len(), 0);
    }
}

#[test]
fn bytes_after_the_file_are_left_alone() {
    let header = TransferHeader::new(3, "f");
    let mut wire = header.encode();
    wire.extend_from_slice(&[1, 2, 3, 4, 5]);
    let mut session = LoopbackSession::from_bytes(wire);
    let received = receive_stream(&mut session, 2, &Vec::new()).unwrap();
    assert_eq!(received.contents, vec![1, 2, 3]);
    assert_eq!(session.pending(), vec![4, 5]);
}

#[test]
fn a_taken_name_is_refused_and_nothing_is_touched() {
    let source = pattern(1000);
    let header = TransferHeader::new(1000, "taken.txt");
    let existing = vec![b"other.txt".to_vec(), b"taken.txt".to_vec()];
    let before = existing.clone();
    let mut session = LoopbackSession::new();
    send_stream(&mut session, &header, &source, 65536);
    let result = receive_stream(&mut session, 65536, &existing);
    assert_eq!(result.unwrap_err(), FileTransferError::FileExists);
    assert_eq!(existing, before);
    // no payload byte was read
    assert_eq!(session.pending(), source);
    // the same stream into a free name is taken
    let free = vec![b"other.txt".to_vec(), b"taken.txt.bak".to_vec()];
    let mut again = LoopbackSession::new();
    send_stream(&mut again, &header, &source, 65536);
    assert_eq!(receive_stream(&mut again, 65536, &free).unwrap().contents, source);
}

#[test]
fn a_taken_name_is_refused_before_the_payload_is_counted() {
    let header = TransferHeader::new(1000, "taken.txt");
    let mut session = LoopbackSession::from_bytes(header.encode());
    let existing = vec![b"taken.txt".to_vec()];
    assert_eq!(
        receive_stream(&mut session, 65536, &existing).unwrap_err(),
        FileTransferError::FileExists
    );
}

#[test]
fn name_lookup_is_exact() {
    let existing = vec![b"a.txt".to_vec(), b"b.txt".to_vec()];
    assert!(is_name_taken(&existing, &b"a.txt".to_vec()));
    assert!(is_name_taken(&existing, &b"b.txt".to_vec()));
    assert!(!is_name_taken(&existing, &b"A.txt".to_vec()));
    assert!(!is_name_taken(&existing, &b"a.tx".to_vec()));
    assert!(!is_name_taken(&Vec::new(), &b"a.txt".to_vec()));
}

#[test]
fn a_source_shorter_than_announced_is_incomplete() {
    let source = pattern(100);
    let header = TransferHeader::new(150, "short.bin");
    let mut session = LoopbackSession::new();
    let report = send_stream(&mut session, &header, &source, 64);
    assert_eq!(report.outcome, Err(FileTransferError::IncompleteTransfer(100, 150)));
    assert_eq!(report.chunks, vec![64, 36]);
    assert_eq!(session.pending_len(), header.encode().len() + 100);
    // and the receiver sees the same shortfall
    assert_eq!(
        receive_stream(&mut session, 64, &Vec::new()).unwrap_err(),
        FileTransferError::IncompleteTransfer(100, 150)
    );
}

#[test]
fn a_source_longer_than_announced_is_cut_at_the_announced_size() {
    let source = pattern(100);
    let header = TransferHeader::new(60, "long.bin");
    let mut session = LoopbackSession::new();
    let report = send_stream(&mut session, &header, &source, 64);
    assert_eq!(report.outcome, Ok(60));
    assert_eq!(report.chunks, vec![60]);
    let received = receive_stream(&mut session, 64, &Vec::new()).unwrap();
    assert_eq!(received.contents, source[..60].to_vec());
}

#[test]
fn a_chunk_size_of_zero_moves_nothing() {
    let source = pattern(10);
    let header = TransferHeader::new(10, "z");
    let mut session = LoopbackSession::new();
    let report = send_stream(&mut session, &header, &source, 0);
    assert_eq!(report.outcome, Err(FileTransferError::IncompleteTransfer(0, 10)));
    assert!(report.chunks.is_empty());
    assert_eq!(session.pending(), header.encode());
    let mut whole = LoopbackSession::new();
    send_stream(&mut whole, &header, &source, 4);
    assert_eq!(
        receive_stream(&mut whole, 0, &Vec::new()).unwrap_err(),
        FileTransferError::IncompleteTransfer(0, 10)
    );
    assert_eq!(whole.pending(), source);
    // an empty file needs no chunk
    let empty = TransferHeader::new(0, "e");
    let mut session = LoopbackSession::new();
    assert_eq!(send_stream(&mut session, &empty, &Vec::new(), 0).outcome, Ok(0));
}
