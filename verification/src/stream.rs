//! The readable + seekable stream capability that every opened track is
//! served from, with an in-memory implementation.
//!
//! A stream is modelled by its byte contents and a cursor. Reading never
//! changes the contents; a successful read of `k` bytes returns exactly the
//! `k` bytes at the cursor and advances it by `k`, and returns an empty
//! buffer exactly when nothing was asked for or the cursor is at or past
//! the end. Repositioning is exact only where a remote transport can be
//! held to it: start-anchored seeks inside the signed 64-bit range land on
//! their target, a zero-length relative seek reports the cursor without
//! moving it, and an end-anchored seek is the transport's own resolution.
//! Reads may fail at any time, as a remote transport can.

use vstd::prelude::*;
use crate::errors::StreamError;

verus! {

/// A seek target, relative to the start, the end, or the cursor.
#[derive(Clone, Copy, Debug, PartialEq, Eq, Structural)]
pub enum SeekFrom {
    Start(u64),
    End(i64),
    Current(i64),
}

/// Seekable, readable byte stream: the single capability type behind every
/// opened track, be the bytes decrypted, plaintext or windowed.
pub trait SeekRead: Sized {
    /// The byte contents the stream serves.
    spec fn data(&self) -> Seq<u8>;

    /// The cursor: index of the next byte a read would return.
    spec fn pos(&self) -> nat;

    /// Implementation-specific well-formedness.
    spec fn inv(&self) -> bool;

    /// Read up to `n` bytes at the cursor.
    fn read(&mut self, n: usize) -> (r: Result<Vec<u8>, StreamError>)
        requires
            old(self).inv(),
        ensures
            final(self).inv(),
            final(self).data() == old(self).data(),
            match r {
                Ok(bytes) => {
                    &&& bytes@.len() <= n
                    &&& final(self).pos() == old(self).pos() + bytes@.len()
                    &&& (bytes@.len() == 0 <==> (n == 0 || old(self).pos()
                        >= old(self).data().len()))
                    &&& (bytes@.len() > 0 ==> old(self).pos() + bytes@.len()
                        <= old(self).data().len() && bytes@ == old(self).data().subrange(
                        old(self).pos() as int,
                        old(self).pos() + bytes@.len() as int,
                    ))
                },
                Err(_) => final(self).pos() == old(self).pos(),
            },
    ;

    /// Move the cursor, returning the new absolute position.
    ///
    /// A start-anchored seek lands on its target and succeeds whenever
    /// the target fits in a signed 64-bit offset; a zero-length relative
    /// seek reports the cursor without moving it; an end-anchored seek
    /// promises only that the returned position is where the cursor now
    /// stands, since a remote transport resolves its own end. A failed
    /// seek leaves the cursor in place. Relative seeks other than zero
    /// are left out: the windowing layer resolves them itself.
    fn seek(&mut self, pos: SeekFrom) -> (r: Result<u64, StreamError>)
        requires
            old(self).inv(),
            pos matches SeekFrom::Current(d) ==> d == 0i64,
        ensures
            final(self).inv(),
            final(self).data() == old(self).data(),
            r is Err ==> final(self).pos() == old(self).pos(),
            match pos {
                SeekFrom::Start(p) => {
                    &&& (r matches Ok(q) ==> q == p && final(self).pos() == p)
                    &&& (p <= i64::MAX ==> r is Ok)
                },
                SeekFrom::Current(_) => r matches Ok(q) && q == old(self).pos()
                    && final(self).pos() == old(self).pos(),
                SeekFrom::End(_) => r matches Ok(q) ==> final(self).pos() == q,
            },
    ;
}

/// A stream over bytes held in memory; the reference implementation of
/// [`SeekRead`], and the one the tests run the session core against.
pub struct MemStream {
    bytes: Vec<u8>,
    cursor: u64,
}

impl MemStream {
    /// A stream over `bytes` with the cursor at the start.
    pub fn new(bytes: Vec<u8>) -> (r: MemStream)
        ensures
            r.inv(),
            r.data() == bytes@,
            r.pos() == 0,
    {
        MemStream { bytes, cursor: 0 }
    }
}

impl SeekRead for MemStream {
    closed spec fn data(&self) -> Seq<u8> {
        self.bytes@
    }

    closed spec fn pos(&self) -> nat {
        self.cursor as nat
    }

    closed spec fn inv(&self) -> bool {
        true
    }

    fn read(&mut self, n: usize) -> (r: Result<Vec<u8>, StreamError>) {
        let len = self.bytes.len();
        let start = if self.cursor < len as u64 {
            self.cursor as usize
        } else {
            len
        };
        let avail = len - start;
        let count = if n < avail {
            n
        } else {
            avail
        };
        let mut out: Vec<u8> = Vec::new();
        let mut i: usize = 0;
        while i < count
            invariant
                0 <= i <= count,
                len == self.bytes@.len(),
                start + count <= len,
                out@.len() == i,
                out@ == self.bytes@.subrange(start as int, start + i),
            decreases count - i,
        {
            out.push(self.bytes[start + i]);
            proof {
                assert(out@ =~= self.bytes@.subrange(start as int, start + i + 1));
            }
            i += 1;
        }
        self.cursor = self.cursor + count as u64;
        Ok(out)
    }

    fn seek(&mut self, pos: SeekFrom) -> (r: Result<u64, StreamError>) {
        let target: i128 = match pos {
            SeekFrom::Start(p) => p as i128,
            SeekFrom::End(e) => self.bytes.len() as i128 + e as i128,
            SeekFrom::Current(d) => self.cursor as i128 + d as i128,
        };
        if 0 <= target && target <= u64::MAX as i128 {
            self.cursor = target as u64;
            Ok(self.cursor)
        } else {
            Err(StreamError::InvalidSeek)
        }
    }
}

/// A stream whose transport has gone away: repositioning still works, but
/// every read fails. It serves an empty byte sequence, so the error paths
/// of the session core can be exercised without any transport.
pub struct BrokenStream {
    cursor: u64,
}

impl BrokenStream {
    pub fn new() -> (r: BrokenStream)
        ensures
            r.inv(),
            r.data() == Seq::<u8>::empty(),
            r.pos() == 0,
    {
        BrokenStream { cursor: 0 }
    }
}

impl SeekRead for BrokenStream {
    closed spec fn data(&self) -> Seq<u8> {
        Seq::empty()
    }

    closed spec fn pos(&self) -> nat {
        self.cursor as nat
    }

    closed spec fn inv(&self) -> bool {
        true
    }

    fn read(&mut self, n: usize) -> (r: Result<Vec<u8>, StreamError>) {
        Err(StreamError::Io)
    }

    fn seek(&mut self, pos: SeekFrom) -> (r: Result<u64, StreamError>) {
        let target: i128 = match pos {
            SeekFrom::Start(p) => p as i128,
            SeekFrom::End(e) => e as i128,
            SeekFrom::Current(d) => self.cursor as i128 + d as i128,
        };
        if 0 <= target && target <= u64::MAX as i128 {
            self.cursor = target as u64;
            Ok(self.cursor)
        } else {
            Err(StreamError::InvalidSeek)
        }
    }
}

} // verus!
