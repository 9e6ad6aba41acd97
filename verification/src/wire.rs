//! The wire format: little-endian integers and the transfer header.
//!
//! A header is the file's size as 8 little-endian bytes, then the length of
//! the file's name as 8 little-endian bytes, then the name's bytes. The
//! payload follows as raw bytes, with nothing between the chunks.

use vstd::prelude::*;
use vstd::string::StrSliceExecFns;
use vstd::string::StringSliceAdditionalSpecFns;

verus! {

/// The number of bytes of an integer on the wire.
pub const INTEGER_WIDTH: usize = 8;

/// The number of bytes of a header before the file's name.
pub const HEADER_PREFIX: usize = 16;

/// 256 to the power `n`.
pub open spec fn pow256(n: nat) -> nat
    decreases n,
{
    if n == 0 {
        1
    } else {
        256 * pow256((n - 1) as nat)
    }
}

/// The `width` low-order base-256 digits of `value`, least significant first.
pub open spec fn le_bytes(value: nat, width: nat) -> Seq<u8>
    decreases width,
{
    if width == 0 {
        Seq::empty()
    } else {
        seq![(value % 256) as u8] + le_bytes(value / 256, (width - 1) as nat)
    }
}

/// The number whose base-256 digits, least significant first, are `bytes`.
pub open spec fn le_value(bytes: Seq<u8>) -> nat
    decreases bytes.len(),
{
    if bytes.len() == 0 {
        0
    } else {
        bytes[0] as nat + 256 * le_value(bytes.drop_first())
    }
}

/// `le_bytes` yields exactly `width` bytes.
pub proof fn lemma_le_bytes_len(value: nat, width: nat)
    ensures
        le_bytes(value, width).len() == width,
    decreases width,
{
    if width > 0 {
        lemma_le_bytes_len(value / 256, (width - 1) as nat);
    }
}

/// A row of `n` bytes reads as a number below 256 to the power `n`.
pub proof fn lemma_le_value_bound(bytes: Seq<u8>)
    ensures
        le_value(bytes) < pow256(bytes.len()),
    decreases bytes.len(),
{
    if bytes.len() > 0 {
        lemma_le_value_bound(bytes.drop_first());
    }
}

/// Reading back what was written gives the number written, provided it fits
/// the width.
pub proof fn lemma_le_round_trip(value: nat, width: nat)
    requires
        value < pow256(width),
    ensures
        le_value(le_bytes(value, width)) == value,
    decreases width,
{
    if width > 0 {
        let rest = le_bytes(value / 256, (width - 1) as nat);
        lemma_le_round_trip(value / 256, (width - 1) as nat);
        lemma_le_bytes_len(value / 256, (width - 1) as nat);
        assert(le_bytes(value, width).drop_first() =~= rest);
    }
}

/// Writing what was read gives the bytes read.
pub proof fn lemma_le_bytes_of_value(bytes: Seq<u8>)
    ensures
        le_bytes(le_value(bytes), bytes.len()) == bytes,
    decreases bytes.len(),
{
    if bytes.len() > 0 {
        let tail = bytes.drop_first();
        lemma_le_bytes_of_value(tail);
        let value = le_value(bytes);
        assert(value % 256 == bytes[0] as nat);
        assert(value / 256 == le_value(tail));
        assert(le_bytes(value, bytes.len()) =~= bytes);
    } else {
        assert(le_bytes(le_value(bytes), bytes.len()) =~= bytes);
    }
}

/// Every `u64` is below 256 to the power 8.
pub proof fn lemma_u64_fits(value: u64)
    ensures
        (value as nat) < pow256(8),
{
    reveal_with_fuel(pow256, 9);
}

/// The 8 little-endian bytes of `value`.
pub fn encode_u64_le(value: u64) -> (out: Vec<u8>)
    ensures
        out@ == le_bytes(value as nat, 8),
{
    let mut out: Vec<u8> = Vec::new();
    let mut rest: u64 = value;
    let mut i: usize = 0;
    while i < INTEGER_WIDTH
        invariant
            i <= INTEGER_WIDTH,
            out@.len() == i,
            out@ + le_bytes(rest as nat, (INTEGER_WIDTH - i) as nat) == le_bytes(value as nat, 8),
        decreases INTEGER_WIDTH - i,
    {
        let digit: u8 = (rest % 256) as u8;
        proof {
            let tail = le_bytes((rest / 256) as nat, (INTEGER_WIDTH - i - 1) as nat);
            assert(le_bytes(rest as nat, (INTEGER_WIDTH - i) as nat) == seq![digit] + tail);
            assert(out@.push(digit) + tail =~= out@ + (seq![digit] + tail));
        }
        out.push(digit);
        rest = rest / 256;
        i += 1;
    }
    assert(out@ + le_bytes(rest as nat, 0) =~= out@);
    out
}

/// The number that 8 little-endian bytes stand for; `None` for a row of any
/// other length.
pub fn decode_u64_le(bytes: &[u8]) -> (value: Option<u64>)
    ensures
        bytes@.len() == 8 ==> value == Some(le_value(bytes@) as u64) && le_value(bytes@)
            <= u64::MAX,
        bytes@.len() != 8 ==> value.is_none(),
{
    if bytes.len() != INTEGER_WIDTH {
        return None;
    }
    let mut acc: u64 = 0;
    let mut i: usize = INTEGER_WIDTH;
    assert(bytes@.skip(8) =~= Seq::<u8>::empty());
    while i > 0
        invariant
            i <= INTEGER_WIDTH,
            bytes@.len() == INTEGER_WIDTH,
            acc == le_value(bytes@.skip(i as int)),
        decreases i,
    {
        proof {
            let tail = bytes@.skip(i as int);
            lemma_le_value_bound(tail);
            reveal_with_fuel(pow256, 9);
            assert(pow256(tail.len()) <= 0x100_0000_0000_0000);
            assert(bytes@.skip(i - 1).drop_first() =~= tail);
            assert(bytes@.skip(i - 1)[0] == bytes@[i - 1]);
        }
        i -= 1;
        acc = acc * 256 + bytes[i] as u64;
    }
    assert(bytes@.skip(0) =~= bytes@);
    Some(acc)
}

/// Whether two rows of bytes are the same, byte for byte.
pub fn same_bytes(a: &Vec<u8>, b: &Vec<u8>) -> (r: bool)
    ensures
        r == (a@ == b@),
{
    if a.len() != b.len() {
        return false;
    }
    let mut i: usize = 0;
    while i < a.len()
        invariant
            i <= a@.len(),
            a@.len() == b@.len(),
            forall|j: int| 0 <= j < i ==> a@[j] == b@[j],
        decreases a@.len() - i,
    {
        if a[i] != b[i] {
            return false;
        }
        i += 1;
    }
    assert(a@ =~= b@);
    true
}

/// What a sender announces before the first payload byte: the file's size
/// and the bytes of its name.
#[derive(Debug)]
pub struct TransferHeader {
    pub file_size: u64,
    pub filename: Vec<u8>,
}

/// The bytes of a header on the wire.
pub open spec fn header_bytes(file_size: u64, filename: Seq<u8>) -> Seq<u8> {
    le_bytes(file_size as nat, 8) + le_bytes(filename.len(), 8) + filename
}

/// The header that a row of bytes starts with: the announced size, the
/// name, and the number of bytes the header takes. `None` when the row ends
/// before the header does.
pub open spec fn parse_header(bytes: Seq<u8>) -> Option<(u64, Seq<u8>, nat)> {
    if bytes.len() < HEADER_PREFIX {
        None
    } else {
        let file_size = le_value(bytes.subrange(0, 8));
        let name_len = le_value(bytes.subrange(8, 16));
        if bytes.len() - HEADER_PREFIX < name_len {
            None
        } else {
            Some(
                (
                    file_size as u64,
                    bytes.subrange(16, 16 + name_len as int),
                    (HEADER_PREFIX + name_len) as nat,
                ),
            )
        }
    }
}

impl TransferHeader {
    /// The bytes of this header on the wire.
    pub open spec fn wire(&self) -> Seq<u8> {
        header_bytes(self.file_size, self.filename@)
    }

    /// The header for a file of `file_size` bytes called `filename`; the
    /// name travels as its UTF-8 bytes.
    pub fn new(file_size: u64, filename: &str) -> (header: TransferHeader)
        ensures
            header.file_size == file_size,
            header.filename@ == filename.spec_bytes(),
    {
        TransferHeader { file_size, filename: filename.as_bytes_vec() }
    }

    /// Writes the header out.
    pub fn encode(&self) -> (out: Vec<u8>)
        ensures
            out@ == self.wire(),
    {
        let mut out = encode_u64_le(self.file_size);
        let mut name_len = encode_u64_le(self.filename.len() as u64);
        out.append(&mut name_len);
        let mut i: usize = 0;
        while i < self.filename.len()
            invariant
                i <= self.filename@.len(),
                out@ == le_bytes(self.file_size as nat, 8) + le_bytes(self.filename@.len(), 8)
                    + self.filename@.take(i as int),
            decreases self.filename@.len() - i,
        {
            assert(self.filename@.take(i as int).push(self.filename@[i as int])
                =~= self.filename@.take(i + 1));
            out.push(self.filename[i]);
            i += 1;
        }
        assert(self.filename@.take(i as int) =~= self.filename@);
        out
    }

    /// Reads the header that `bytes` starts with, and says how many bytes it
    /// took. `None` when `bytes` ends before the header does.
    pub fn decode(bytes: &Vec<u8>) -> (parsed: Option<(TransferHeader, usize)>)
        ensures
            match parse_header(bytes@) {
                None => parsed.is_none(),
                Some((file_size, filename, consumed)) => {
                    &&& parsed.is_some()
                    &&& parsed.unwrap().0.file_size == file_size
                    &&& parsed.unwrap().0.filename@ == filename
                    &&& parsed.unwrap().1 == consumed
                },
            },
    {
        if bytes.len() < HEADER_PREFIX {
            return None;
        }
        let size_field = vstd::slice::slice_subrange(bytes.as_slice(), 0, 8);
        let len_field = vstd::slice::slice_subrange(bytes.as_slice(), 8, 16);
        let file_size = decode_u64_le(size_field).unwrap();
        let name_len = decode_u64_le(len_field).unwrap();
        if ((bytes.len() - HEADER_PREFIX) as u64) < name_len {
            return None;
        }
        let name_len: usize = name_len as usize;
        let mut filename: Vec<u8> = Vec::new();
        let mut i: usize = 0;
        while i < name_len
            invariant
                i <= name_len,
                HEADER_PREFIX + name_len <= bytes@.len() <= usize::MAX,
                filename@ == bytes@.subrange(16, 16 + i),
            decreases name_len - i,
        {
            assert(bytes@.subrange(16, 16 + i).push(bytes@[16 + i]) =~= bytes@.subrange(
                16,
                16 + i + 1,
            ));
            filename.push(bytes[HEADER_PREFIX + i]);
            i += 1;
        }
        Some((TransferHeader { file_size, filename }, HEADER_PREFIX + name_len))
    }
}

/// A header that was written out is read back as it was, whatever follows
/// it on the wire, and takes exactly the bytes that were written.
pub proof fn lemma_header_round_trip(file_size: u64, filename: Seq<u8>, rest: Seq<u8>)
    requires
        filename.len() <= u64::MAX,
    ensures
        header_bytes(file_size, filename).len() == HEADER_PREFIX + filename.len(),
        parse_header(header_bytes(file_size, filename) + rest) == Some(
            (file_size, filename, (HEADER_PREFIX + filename.len()) as nat),
        ),
{
    let size_field = le_bytes(file_size as nat, 8);
    let len_field = le_bytes(filename.len(), 8);
    let bytes = header_bytes(file_size, filename) + rest;
    lemma_le_bytes_len(file_size as nat, 8);
    lemma_le_bytes_len(filename.len(), 8);
    lemma_u64_fits(file_size);
    lemma_u64_fits(filename.len() as u64);
    lemma_le_round_trip(file_size as nat, 8);
    lemma_le_round_trip(filename.len(), 8);
    assert(bytes.subrange(0, 8) =~= size_field);
    assert(bytes.subrange(8, 16) =~= len_field);
    assert(bytes.subrange(16, 16 + filename.len() as int) =~= filename);
}

} // verus!
