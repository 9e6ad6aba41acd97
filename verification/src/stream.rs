//! The two chunk loops of a transfer, run over a transport session held in
//! memory.
//!
//! `send_stream` writes a header and a source to a session as a sender
//! does; `receive_stream` reads from a session the file that it carries, as
//! a receiver does. Both move the payload chunk by chunk under a
//! `TransferState`, and stop when the file is complete or a read yields
//! nothing.

use vstd::prelude::*;
use vstd::slice::slice_subrange;
use crate::error::FileTransferError;
use crate::session::LoopbackSession;
use crate::transfer::TransferState;
use crate::wire::{
    decode_u64_le, header_bytes, lemma_header_round_trip, parse_header, same_bytes,
    TransferHeader, HEADER_PREFIX,
};

verus! {

/// The number of payload bytes that get across when `declared` bytes were
/// announced and `available` bytes are there to be moved: none at all with
/// a chunk size of zero, else as many as are announced and there.
pub open spec fn deliverable(declared: u64, available: nat, chunk_size: usize) -> nat {
    if chunk_size == 0 {
        0
    } else if available < declared {
        available
    } else {
        declared as nat
    }
}

/// The lengths of the chunks that `remaining` bytes are moved in: full
/// chunks, then what is left.
pub open spec fn chunk_plan(remaining: nat, chunk_size: usize) -> Seq<usize>
    decreases remaining,
{
    if remaining == 0 || chunk_size == 0 {
        Seq::empty()
    } else if remaining < chunk_size {
        seq![remaining as usize]
    } else {
        seq![chunk_size] + chunk_plan((remaining - chunk_size) as nat, chunk_size)
    }
}

/// The number of bytes in a row of chunks.
pub open spec fn total_len(chunks: Seq<usize>) -> nat
    decreases chunks.len(),
{
    if chunks.len() == 0 {
        0
    } else {
        chunks[0] as nat + total_len(chunks.drop_first())
    }
}

/// The chunks of a plan are never empty, never longer than the chunk size,
/// and together hold exactly the bytes that were to be moved.
pub proof fn lemma_chunk_plan_covers(remaining: nat, chunk_size: usize)
    requires
        chunk_size > 0,
    ensures
        total_len(chunk_plan(remaining, chunk_size)) == remaining,
        forall|i: int|
            0 <= i < chunk_plan(remaining, chunk_size).len() ==> 0 < (#[trigger] chunk_plan(
                remaining,
                chunk_size,
            )[i]) <= chunk_size,
    decreases remaining,
{
    let plan = chunk_plan(remaining, chunk_size);
    if remaining == 0 {
    } else if remaining < chunk_size {
        assert(plan.drop_first() =~= Seq::<usize>::empty());
        assert(total_len(plan.drop_first()) == 0);
        assert(total_len(plan) == plan[0] as nat + total_len(plan.drop_first()));
    } else {
        let rest = chunk_plan((remaining - chunk_size) as nat, chunk_size);
        lemma_chunk_plan_covers((remaining - chunk_size) as nat, chunk_size);
        assert(plan.drop_first() =~= rest);
        assert(total_len(plan) == plan[0] as nat + total_len(plan.drop_first()));
        assert forall|i: int| 0 <= i < plan.len() implies 0 < (#[trigger] plan[i])
            <= chunk_size by {
            if i > 0 {
                assert(plan[i] == rest[i - 1]);
            }
        }
    }
}

/// How a transfer of `declared` bytes ends when `moved` bytes got across.
pub open spec fn outcome_of(moved: nat, declared: u64) -> Result<u64, FileTransferError> {
    if moved == declared {
        Ok(declared)
    } else {
        Err(FileTransferError::IncompleteTransfer(moved as u64, declared))
    }
}

/// The bytes a sender puts on the wire: the header, then as much of the
/// source as gets across.
pub open spec fn sent_wire(
    file_size: u64,
    filename: Seq<u8>,
    source: Seq<u8>,
    chunk_size: usize,
) -> Seq<u8> {
    header_bytes(file_size, filename) + source.take(
        deliverable(file_size, source.len(), chunk_size) as int,
    )
}

/// Whether a file called `name` is among `existing`.
pub open spec fn name_taken(existing: Seq<Vec<u8>>, name: Seq<u8>) -> bool {
    exists|i: int| 0 <= i < existing.len() && (#[trigger] existing[i])@ == name
}

/// What a receiver makes of the bytes on the wire: the announced size, the
/// name and the contents of the file, or the failure.
///
/// A wire that ends inside the header is a transfer error. A name that is
/// already taken is refused before any payload byte is looked at. A payload
/// that ends early is an incomplete transfer, with the count of the bytes
/// that did arrive.
pub open spec fn receive_result(wire: Seq<u8>, chunk_size: usize, existing: Seq<Vec<u8>>) -> Result<
    (u64, Seq<u8>, Seq<u8>),
    FileTransferError,
> {
    match parse_header(wire) {
        None => Err(FileTransferError::TransferError),
        Some((file_size, filename, consumed)) => {
            let payload = wire.skip(consumed as int);
            let moved = deliverable(file_size, payload.len(), chunk_size);
            if name_taken(existing, filename) {
                Err(FileTransferError::FileExists)
            } else if moved == file_size {
                Ok((file_size, filename, payload.take(file_size as int)))
            } else {
                Err(FileTransferError::IncompleteTransfer(moved as u64, file_size))
            }
        },
    }
}

/// The bytes that a receiver leaves unread on the wire.
///
/// A wire that ends inside the header is read to its end. A file whose name
/// is taken is refused with its payload unread. Else the payload is read as
/// far as it gets across; what follows the file stays on the wire.
pub open spec fn unread_after(wire: Seq<u8>, chunk_size: usize, existing: Seq<Vec<u8>>) -> Seq<
    u8,
> {
    match parse_header(wire) {
        None => Seq::empty(),
        Some((file_size, filename, consumed)) => {
            let payload = wire.skip(consumed as int);
            if name_taken(existing, filename) {
                payload
            } else {
                payload.skip(deliverable(file_size, payload.len(), chunk_size) as int)
            }
        },
    }
}

/// What a sender did: the lengths of the payload chunks in order, and how
/// the transfer ended.
#[derive(Debug)]
pub struct SendReport {
    pub chunks: Vec<usize>,
    pub outcome: Result<u64, FileTransferError>,
}

/// What a receiver got: the header and the contents of the file.
#[derive(Debug)]
pub struct Received {
    pub header: TransferHeader,
    pub contents: Vec<u8>,
}

/// Sends `source` as the file that `header` announces, in chunks of at most
/// `chunk_size` bytes: the header goes out once, before any payload byte;
/// the payload follows as it stands in the source, until the announced
/// number of bytes went out or the source has no more to give. The transfer
/// succeeds exactly when the announced number of bytes went out.
pub fn send_stream(
    session: &mut LoopbackSession,
    header: &TransferHeader,
    source: &Vec<u8>,
    chunk_size: usize,
) -> (report: SendReport)
    requires
        old(session).wf(),
    ensures
        final(session).wf(),
        final(session)@ == old(session)@ + sent_wire(
            header.file_size,
            header.filename@,
            source@,
            chunk_size,
        ),
        report.chunks@ == chunk_plan(
            deliverable(header.file_size, source@.len(), chunk_size),
            chunk_size,
        ),
        report.outcome == outcome_of(
            deliverable(header.file_size, source@.len(), chunk_size),
            header.file_size,
        ),
{
    let ghost target = deliverable(header.file_size, source@.len(), chunk_size);
    let encoded = header.encode();
    session.write_all(encoded.as_slice());
    let mut state = TransferState::new(header.file_size, chunk_size, 0);
    let mut chunks: Vec<usize> = Vec::new();
    let mut offset: usize = 0;
    let length: usize = source.len();
    assert(old(session)@ + header.wire() + source@.take(0) =~= old(session)@ + header.wire());
    while !state.is_complete()
        invariant
            session.wf(),
            state.wf(),
            state@.total_bytes == header.file_size,
            state@.chunk_size == chunk_size,
            state@.bytes_moved == offset,
            offset <= target,
            length == source@.len(),
            target == deliverable(header.file_size, source@.len(), chunk_size),
            session@ == old(session)@ + header.wire() + source@.take(offset as int),
            chunks@ + chunk_plan((target - offset) as nat, chunk_size) == chunk_plan(
                target,
                chunk_size,
            ),
        ensures
            offset == target,
        decreases state@.total_bytes - state@.bytes_moved,
    {
        let want = state.next_request();
        let available = length - offset;
        let n: usize = if want < available {
            want
        } else {
            available
        };
        if n == 0 {
            break;
        }
        proof {
            let left = (target - offset) as nat;
            let tail = chunk_plan((left - n) as nat, chunk_size);
            if left < chunk_size {
                assert(tail =~= Seq::<usize>::empty());
                assert(chunk_plan(left, chunk_size) =~= seq![n] + tail);
            }
            assert(chunks@.push(n) + tail =~= chunks@ + (seq![n] + tail));
            assert(source@.take(offset as int) + source@.subrange(offset as int, offset + n)
                =~= source@.take(offset + n));
            assert(old(session)@ + header.wire() + source@.take(offset as int) + source@.subrange(
                offset as int,
                offset + n,
            ) =~= old(session)@ + header.wire() + source@.take(offset + n));
        }
        session.write_all(slice_subrange(source.as_slice(), offset, offset + n));
        chunks.push(n);
        state.record(n, 0);
        offset += n;
    }
    assert(chunks@ + chunk_plan(0, chunk_size) =~= chunks@);
    assert(session@ =~= old(session)@ + sent_wire(
        header.file_size,
        header.filename@,
        source@,
        chunk_size,
    ));
    let outcome = match state.finish(0) {
        Ok(last) => Ok(last.bytes_moved),
        Err(error) => Err(error),
    };
    SendReport { chunks, outcome }
}

/// Whether a file called `name` is among `existing`.
pub fn is_name_taken(existing: &Vec<Vec<u8>>, name: &Vec<u8>) -> (taken: bool)
    ensures
        taken == name_taken(existing@, name@),
{
    let mut i: usize = 0;
    while i < existing.len()
        invariant
            i <= existing@.len(),
            forall|j: int| 0 <= j < i ==> (#[trigger] existing@[j])@ != name@,
        decreases existing@.len() - i,
    {
        if same_bytes(&existing[i], name) {
            return true;
        }
        i += 1;
    }
    false
}

/// Reads the header that the session begins with. `None` when the stream
/// ends inside the header; it has then been read to its end.
fn read_header(session: &mut LoopbackSession) -> (header: Option<TransferHeader>)
    requires
        old(session).wf(),
    ensures
        final(session).wf(),
        match parse_header(old(session)@) {
            None => header.is_none() && final(session)@ == Seq::<u8>::empty(),
            Some((file_size, filename, consumed)) => {
                &&& header.is_some()
                &&& header.unwrap().file_size == file_size
                &&& header.unwrap().filename@ == filename
                &&& final(session)@ == old(session)@.skip(consumed as int)
            },
        },
{
    let ghost wire = session@;
    let prefix = match session.read_exact(HEADER_PREFIX) {
        Some(prefix) => prefix,
        None => {
            return None;
        },
    };
    assert(prefix@.subrange(0, 8) =~= wire.subrange(0, 8));
    assert(prefix@.subrange(8, 16) =~= wire.subrange(8, 16));
    let file_size = decode_u64_le(slice_subrange(prefix.as_slice(), 0, 8)).unwrap();
    let name_len = decode_u64_le(slice_subrange(prefix.as_slice(), 8, 16)).unwrap();
    if (session.pending_len() as u64) < name_len {
        session.drain();
        return None;
    }
    let filename = session.read_exact(name_len as usize).unwrap();
    assert(filename@ =~= wire.subrange(16, 16 + name_len as int));
    assert(session@ =~= wire.skip(16 + name_len as int));
    Some(TransferHeader { file_size, filename })
}

/// Receives the file that the session carries, in chunks of at most
/// `chunk_size` bytes, until the announced number of bytes came in or a
/// read yields nothing. `existing` lists the names already taken at the
/// destination: a file of such a name is refused before any payload byte
/// is read, and nothing at the destination changes.
pub fn receive_stream(
    session: &mut LoopbackSession,
    chunk_size: usize,
    existing: &Vec<Vec<u8>>,
) -> (result: Result<Received, FileTransferError>)
    requires
        old(session).wf(),
    ensures
        final(session).wf(),
        final(session)@ == unread_after(old(session)@, chunk_size, existing@),
        match receive_result(old(session)@, chunk_size, existing@) {
            Ok((file_size, filename, contents)) => {
                &&& result is Ok
                &&& result.unwrap().header.file_size == file_size
                &&& result.unwrap().header.filename@ == filename
                &&& result.unwrap().contents@ == contents
            },
            Err(error) => result is Err && result.unwrap_err() == error,
        },
{
    let header = match read_header(session) {
        Some(header) => header,
        None => {
            return Err(FileTransferError::TransferError);
        },
    };
    if is_name_taken(existing, &header.filename) {
        return Err(FileTransferError::FileExists);
    }
    let ghost payload = session@;
    let ghost target = deliverable(header.file_size, payload.len(), chunk_size);
    let mut state = TransferState::new(header.file_size, chunk_size, 0);
    let mut contents: Vec<u8> = Vec::new();
    assert(payload.take(0) =~= Seq::<u8>::empty());
    assert(payload.skip(0) =~= payload);
    while !state.is_complete()
        invariant
            session.wf(),
            state.wf(),
            state@.total_bytes == header.file_size,
            state@.chunk_size == chunk_size,
            state@.bytes_moved == contents@.len(),
            contents@.len() <= target,
            target == deliverable(header.file_size, payload.len(), chunk_size),
            contents@ == payload.take(contents@.len() as int),
            session@ == payload.skip(contents@.len() as int),
        ensures
            contents@.len() == target,
        decreases state@.total_bytes - state@.bytes_moved,
    {
        let want = state.next_request();
        let mut chunk = session.read(want);
        let n = chunk.len();
        if n == 0 {
            break;
        }
        proof {
            let moved = contents@.len() as int;
            assert(payload.take(moved) + payload.skip(moved).take(n as int) =~= payload.take(
                moved + n,
            ));
            assert(payload.skip(moved).skip(n as int) =~= payload.skip(moved + n));
        }
        contents.append(&mut chunk);
        state.record(n, 0);
    }
    match state.finish(0) {
        Ok(_) => Ok(Received { header, contents }),
        Err(error) => Err(error),
    }
}

/// A file sent whole is received as it was: if the source has exactly the
/// announced number of bytes, then whatever the two chunk sizes, as long as
/// neither is zero, the receiver ends with the announced size, the name and
/// the very bytes of the source.
pub proof fn lemma_loopback_round_trip(
    filename: Seq<u8>,
    source: Seq<u8>,
    send_chunk: usize,
    receive_chunk: usize,
    existing: Seq<Vec<u8>>,
)
    requires
        filename.len() <= u64::MAX,
        source.len() <= u64::MAX,
        send_chunk > 0,
        receive_chunk > 0,
        !name_taken(existing, filename),
    ensures
        receive_result(
            sent_wire(source.len() as u64, filename, source, send_chunk),
            receive_chunk,
            existing,
        ) == Ok::<(u64, Seq<u8>, Seq<u8>), FileTransferError>(
            (source.len() as u64, filename, source),
        ),
{
    let file_size = source.len() as u64;
    let wire = sent_wire(file_size, filename, source, send_chunk);
    assert(source.take(source.len() as int) =~= source);
    lemma_header_round_trip(file_size, filename, source);
    let payload = wire.skip((16 + filename.len()) as int);
    assert(payload =~= source);
}

/// A stream that closes early is never taken for a whole file: if only `k`
/// of the announced bytes follow the header, the receiver reports an
/// incomplete transfer of `k` bytes.
pub proof fn lemma_truncated_stream_is_incomplete(
    file_size: u64,
    filename: Seq<u8>,
    delivered: Seq<u8>,
    chunk_size: usize,
    existing: Seq<Vec<u8>>,
)
    requires
        filename.len() <= u64::MAX,
        delivered.len() < file_size,
        chunk_size > 0,
        !name_taken(existing, filename),
    ensures
        receive_result(header_bytes(file_size, filename) + delivered, chunk_size, existing)
            == Err::<(u64, Seq<u8>, Seq<u8>), FileTransferError>(
            FileTransferError::IncompleteTransfer(delivered.len() as u64, file_size),
        ),
{
    lemma_header_round_trip(file_size, filename, delivered);
    let wire = header_bytes(file_size, filename) + delivered;
    assert(wire.skip((16 + filename.len()) as int) =~= delivered);
}

/// A file whose name is taken at the destination is refused, whatever the
/// payload holds.
pub proof fn lemma_taken_name_is_refused(
    file_size: u64,
    filename: Seq<u8>,
    payload: Seq<u8>,
    chunk_size: usize,
    existing: Seq<Vec<u8>>,
)
    requires
        filename.len() <= u64::MAX,
        name_taken(existing, filename),
    ensures
        receive_result(header_bytes(file_size, filename) + payload, chunk_size, existing)
            == Err::<(u64, Seq<u8>, Seq<u8>), FileTransferError>(FileTransferError::FileExists),
{
    lemma_header_round_trip(file_size, filename, payload);
}

} // verus!
