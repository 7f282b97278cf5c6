//! A logical sub-range view over a larger seekable stream.
//!
//! A `Subfile` exposes the bytes of an underlying stream from `offset`
//! onward. Reads forward to the underlying stream; seeks translate local
//! positions to absolute ones, and any repositioning whose absolute target
//! would precede `offset` is rejected, so the absolute cursor never leaves
//! the window.

use vstd::prelude::*;
use crate::errors::StreamError;
use crate::stream::{SeekFrom, SeekRead};

verus! {

pub struct Subfile<T: SeekRead> {
    stream: T,
    offset: u64,
    length: u64,
}

impl<T: SeekRead> Subfile<T> {
    /// Contents of the underlying stream.
    pub closed spec fn stream_data(&self) -> Seq<u8> {
        self.stream.data()
    }

    /// Absolute cursor of the underlying stream.
    pub closed spec fn abs_pos(&self) -> nat {
        self.stream.pos()
    }

    /// First absolute position inside the window.
    pub closed spec fn offset_val(&self) -> u64 {
        self.offset
    }

    /// Total length of the underlying stream, as recorded at creation.
    pub closed spec fn length_val(&self) -> u64 {
        self.length
    }

    /// Cursor in window coordinates.
    pub open spec fn local_pos(&self) -> int {
        self.abs_pos() - self.offset_val()
    }

    /// The window: everything of the underlying stream from `offset` on.
    pub open spec fn window(&self) -> Seq<u8> {
        self.stream_data().skip(self.offset_val() as int)
    }

    /// The recorded length matches the underlying stream and the absolute
    /// cursor never precedes the window.
    pub closed spec fn wf(&self) -> bool {
        &&& self.stream.inv()
        &&& self.stream.data().len() == self.length
        &&& self.stream.pos() >= self.offset
        &&& self.stream.pos() <= u64::MAX
    }

    /// Total length of the underlying stream, as recorded at creation.
    pub fn length(&self) -> (r: u64)
        ensures
            r == self.length_val(),
    {
        self.length
    }

    /// A well-formed window's recorded length is the underlying stream's
    /// byte count.
    pub proof fn lemma_wf_length(&self)
        requires
            self.wf(),
        ensures
            self.stream_data().len() == self.length_val(),
    {
    }

    /// A window over `stream` starting at `offset`, with the underlying
    /// cursor placed on the window's first byte; owed to succeed whenever
    /// the offset fits in a signed 64-bit seek target.
    pub fn new(stream: T, offset: u64, length: u64) -> (r: Result<Subfile<T>, StreamError>)
        requires
            stream.inv(),
            stream.data().len() == length,
        ensures
            r matches Ok(s) ==> {
                &&& s.wf()
                &&& s.stream_data() == stream.data()
                &&& s.offset_val() == offset
                &&& s.length_val() == length
                &&& s.abs_pos() == offset
            },
            offset <= i64::MAX ==> r.is_ok(),
    {
        let mut stream = stream;
        match stream.seek(SeekFrom::Start(offset)) {
            Ok(_) => Ok(Subfile { stream, offset, length }),
            Err(e) => Err(e),
        }
    }

    /// Read up to `n` bytes at the cursor, straight from the underlying
    /// stream: a successful read returns exactly the underlying bytes at
    /// the absolute cursor, which are the window's bytes at the local one.
    pub fn read(&mut self, n: usize) -> (r: Result<Vec<u8>, StreamError>)
        requires
            old(self).wf(),
        ensures
            final(self).wf(),
            final(self).stream_data() == old(self).stream_data(),
            final(self).offset_val() == old(self).offset_val(),
            final(self).length_val() == old(self).length_val(),
            match r {
                Ok(bytes) => {
                    &&& bytes@.len() <= n
                    &&& final(self).abs_pos() == old(self).abs_pos() + bytes@.len()
                    &&& (bytes@.len() == 0 <==> (n == 0 || old(self).abs_pos()
                        >= old(self).length_val()))
                    &&& (bytes@.len() > 0 ==> old(self).abs_pos() + bytes@.len()
                        <= old(self).length_val() && bytes@ == old(self).stream_data().subrange(
                        old(self).abs_pos() as int,
                        old(self).abs_pos() + bytes@.len() as int,
                    ))
                },
                Err(_) => final(self).abs_pos() == old(self).abs_pos(),
            },
    {
        self.stream.read(n)
    }

    /// Move the cursor, returning the new position in window coordinates.
    ///
    /// `Start(p)` goes to absolute `offset + p`. `End(e)` is relative to
    /// the recorded length and is rejected when the target would precede
    /// `offset`. `Current(d)` is relative to the cursor, rejected likewise,
    /// so the window invariant survives every outcome. Every seek is
    /// resolved here and issued to the underlying stream start-anchored,
    /// so an accepted target is owed success whenever it fits in a signed
    /// 64-bit seek target.
    pub fn seek(&mut self, pos: SeekFrom) -> (r: Result<u64, StreamError>)
        requires
            old(self).wf(),
        ensures
            final(self).wf(),
            final(self).stream_data() == old(self).stream_data(),
            final(self).offset_val() == old(self).offset_val(),
            final(self).length_val() == old(self).length_val(),
            ({
                let off = old(self).offset_val() as int;
                let target = match pos {
                    SeekFrom::Start(p) => off + p,
                    SeekFrom::End(e) => old(self).length_val() + e,
                    SeekFrom::Current(d) => old(self).abs_pos() + d,
                };
                &&& (r matches Ok(p) ==> off <= target <= u64::MAX && p == target - off
                    && final(self).abs_pos() == target)
                &&& (r is Err ==> final(self).abs_pos() == old(self).abs_pos())
                &&& ((target < off || target > u64::MAX) ==> (r matches Err(e) && e
                    == StreamError::InvalidSeek))
                &&& (off <= target <= i64::MAX ==> r is Ok)
            }),
    {
        let target: i128 = match pos {
            SeekFrom::Start(p) => self.offset as i128 + p as i128,
            SeekFrom::End(e) => self.length as i128 + e as i128,
            SeekFrom::Current(d) => {
                let cur = self.stream.seek(SeekFrom::Current(0));
                match cur {
                    Ok(p) => p as i128 + d as i128,
                    Err(e) => {
                        return Err(e);
                    },
                }
            },
        };
        if target < self.offset as i128 || target > u64::MAX as i128 {
            return Err(StreamError::InvalidSeek);
        }
        match self.stream.seek(SeekFrom::Start(target as u64)) {
            Ok(p) => Ok(p - self.offset),
            Err(e) => Err(e),
        }
    }
}

/// Reading through the window is reading the underlying stream: for any
/// local position `p` and count `k` inside the window, the bytes the window
/// holds at `p` are exactly the underlying bytes at `offset + p`. Together
/// with the contracts of `seek` and `read`, a `seek(Start(p))` followed by
/// a read therefore yields the same bytes as reading the underlying stream
/// directly at `offset + p`.
pub proof fn lemma_window_read_matches_underlying(data: Seq<u8>, offset: int, p: int, k: int)
    requires
        0 <= offset <= data.len(),
        0 <= p,
        0 <= k,
        offset + p + k <= data.len(),
    ensures
        data.skip(offset).subrange(p, p + k) == data.subrange(offset + p, offset + p + k),
{
    assert(data.skip(offset).subrange(p, p + k) =~= data.subrange(offset + p, offset + p + k));
}

} // verus!
