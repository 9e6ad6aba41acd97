//! A transport session held in memory: an ordered, reliable stream of
//! bytes between two peers of one process.
//!
//! What is written first is read first, and nothing is lost or repeated. A
//! read that yields no bytes means that the writer has closed the stream.

use vstd::prelude::*;

verus! {

/// One direction of a transport session, held in memory.
#[derive(Debug)]
pub struct LoopbackSession {
    bytes: Vec<u8>,
    position: usize,
}

impl View for LoopbackSession {
    type V = Seq<u8>;

    /// The bytes written and not yet read, in the order they were written.
    closed spec fn view(&self) -> Seq<u8> {
        self.bytes@.skip(self.position as int)
    }
}

impl LoopbackSession {
    /// The invariant of a session: what was read is part of what was
    /// written.
    pub closed spec fn wf(&self) -> bool {
        self.position <= self.bytes@.len()
    }

    /// A session on which nothing was written yet.
    pub fn new() -> (session: LoopbackSession)
        ensures
            session.wf(),
            session@ == Seq::<u8>::empty(),
    {
        let session = LoopbackSession { bytes: Vec::new(), position: 0 };
        assert(session@ =~= Seq::<u8>::empty());
        session
    }

    /// A session on which `bytes` were written and the writer then closed.
    pub fn from_bytes(bytes: Vec<u8>) -> (session: LoopbackSession)
        ensures
            session.wf(),
            session@ == bytes@,
    {
        let session = LoopbackSession { bytes, position: 0 };
        assert(session@ =~= bytes@);
        session
    }

    /// The number of bytes written and not yet read.
    pub fn pending_len(&self) -> (n: usize)
        requires
            self.wf(),
        ensures
            n == self@.len(),
    {
        self.bytes.len() - self.position
    }

    /// A copy of the bytes written and not yet read.
    pub fn pending(&self) -> (copy: Vec<u8>)
        requires
            self.wf(),
        ensures
            copy@ == self@,
    {
        let mut copy: Vec<u8> = Vec::new();
        let mut i: usize = self.position;
        while i < self.bytes.len()
            invariant
                self.position <= i <= self.bytes@.len(),
                copy@ == self.bytes@.subrange(self.position as int, i as int),
            decreases self.bytes@.len() - i,
        {
            assert(self.bytes@.subrange(self.position as int, i as int).push(self.bytes@[i as int])
                =~= self.bytes@.subrange(self.position as int, i + 1));
            copy.push(self.bytes[i]);
            i += 1;
        }
        assert(copy@ =~= self@);
        copy
    }

    /// Writes all of `data`, behind what was written before.
    pub fn write_all(&mut self, data: &[u8])
        requires
            old(self).wf(),
        ensures
            final(self).wf(),
            final(self)@ == old(self)@ + data@,
    {
        let mut i: usize = 0;
        while i < data.len()
            invariant
                i <= data@.len(),
                self.position == old(self).position,
                self.bytes@ == old(self).bytes@ + data@.take(i as int),
                self.wf(),
            decreases data@.len() - i,
        {
            assert(data@.take(i as int).push(data@[i as int]) =~= data@.take(i + 1));
            self.bytes.push(data[i]);
            i += 1;
        }
        assert(data@.take(i as int) =~= data@);
        assert(self@ =~= old(self)@ + data@);
    }

    /// Reads up to `max` bytes: as many as are pending, if that is fewer.
    /// What is read is the oldest of what was pending, and is pending no
    /// longer.
    pub fn read(&mut self, max: usize) -> (chunk: Vec<u8>)
        requires
            old(self).wf(),
        ensures
            final(self).wf(),
            chunk@.len() == if old(self)@.len() < max {
                old(self)@.len()
            } else {
                max as nat
            },
            chunk@ == old(self)@.take(chunk@.len() as int),
            final(self)@ == old(self)@.skip(chunk@.len() as int),
    {
        let pending = self.bytes.len() - self.position;
        let n: usize = if pending < max {
            pending
        } else {
            max
        };
        let mut chunk: Vec<u8> = Vec::new();
        let mut i: usize = 0;
        while i < n
            invariant
                i <= n,
                self.position + n <= self.bytes@.len() <= usize::MAX,
                chunk@ == self.bytes@.subrange(self.position as int, self.position + i),
            decreases n - i,
        {
            assert(self.bytes@.subrange(self.position as int, self.position + i).push(
                self.bytes@[self.position + i],
            ) =~= self.bytes@.subrange(self.position as int, self.position + i + 1));
            chunk.push(self.bytes[self.position + i]);
            i += 1;
        }
        self.position = self.position + n;
        assert(chunk@ =~= old(self)@.take(n as int));
        assert(self@ =~= old(self)@.skip(n as int));
        chunk
    }

    /// Reads the stream to its end and hands nothing out.
    pub fn drain(&mut self)
        requires
            old(self).wf(),
        ensures
            final(self).wf(),
            final(self)@ == Seq::<u8>::empty(),
    {
        self.position = self.bytes.len();
        assert(self@ =~= Seq::<u8>::empty());
    }

    /// Reads exactly `n` bytes. If fewer are pending, the stream has ended
    /// inside them: nothing is handed out, and nothing is pending any more.
    pub fn read_exact(&mut self, n: usize) -> (chunk: Option<Vec<u8>>)
        requires
            old(self).wf(),
        ensures
            final(self).wf(),
            old(self)@.len() >= n ==> chunk.is_some() && chunk.unwrap()@ == old(self)@.take(
                n as int,
            ) && final(self)@ == old(self)@.skip(n as int),
            old(self)@.len() < n ==> chunk.is_none() && final(self)@ == Seq::<u8>::empty(),
    {
        if self.pending_len() < n {
            self.drain();
            None
        } else {
            Some(self.read(n))
        }
    }
}

} // verus!
