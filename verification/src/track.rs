//! One opened track: a windowed decrypted stream, its resolved encoding
//! format, the recorded stream length and a reference count.

use vstd::prelude::*;
use crate::encoding::EncodingFormat;
use crate::errors::StreamError;
use crate::stream::{SeekFrom, SeekRead};
use crate::subfile::Subfile;

verus! {

/// Ghost model of one opened track.
pub struct TrackModel {
    /// How many callers currently hold the track open.
    pub refs: u16,
    /// Total length of the underlying stream, as reported at acquisition.
    pub length: u64,
    /// The encoding format the acquisition resolved to.
    pub format: EncodingFormat,
    /// Bytes of the underlying stream.
    pub data: Seq<u8>,
    /// Absolute cursor of the underlying stream.
    pub abs_pos: nat,
    /// First absolute position of the logical window.
    pub offset: u64,
}

/// An acquired track held by the registry: the windowed stream it is
/// served from, plus the recorded format and the reference count that
/// `open` and `close` balance.
pub struct OpenedTrack<S: SeekRead> {
    file: Subfile<S>,
    ref_count: u16,
    audio_format: EncodingFormat,
}

impl<S: SeekRead> OpenedTrack<S> {
    pub closed spec fn model(&self) -> TrackModel {
        TrackModel {
            refs: self.ref_count,
            length: self.file.length_val(),
            format: self.audio_format,
            data: self.file.stream_data(),
            abs_pos: self.file.abs_pos(),
            offset: self.file.offset_val(),
        }
    }

    pub closed spec fn file_wf(&self) -> bool {
        self.file.wf()
    }

    /// The windowed stream is well formed and the recorded length is its
    /// byte count.
    pub open spec fn wf(&self) -> bool {
        &&& self.file_wf()
        &&& self.model().data.len() == self.model().length
    }

    /// A freshly acquired track, held open by its first caller.
    pub fn new(file: Subfile<S>, audio_format: EncodingFormat) -> (r: OpenedTrack<S>)
        requires
            file.wf(),
        ensures
            r.wf(),
            r.model() == (TrackModel {
                refs: 1u16,
                length: file.length_val(),
                format: audio_format,
                data: file.stream_data(),
                abs_pos: file.abs_pos(),
                offset: file.offset_val(),
            }),
    {
        proof {
            file.lemma_wf_length();
        }
        OpenedTrack { file, ref_count: 1, audio_format }
    }

    /// One more caller holds the track open; returns the previous count,
    /// which saturates rather than wraps.
    pub fn incr_ref(&mut self) -> (r: u16)
        ensures
            r == old(self).model().refs,
            final(self).model() == (TrackModel {
                refs: if old(self).model().refs == u16::MAX {
                    u16::MAX
                } else {
                    (old(self).model().refs + 1) as u16
                },
                ..old(self).model()
            }),
            final(self).wf() == old(self).wf(),
    {
        let prev = self.ref_count;
        if self.ref_count < u16::MAX {
            self.ref_count = self.ref_count + 1;
        }
        prev
    }

    /// One caller lets go of the track; returns the previous count.
    pub fn decr_ref(&mut self) -> (r: u16)
        requires
            old(self).model().refs >= 1,
        ensures
            r == old(self).model().refs,
            final(self).model() == (TrackModel {
                refs: (old(self).model().refs - 1) as u16,
                ..old(self).model()
            }),
            final(self).wf() == old(self).wf(),
    {
        let prev = self.ref_count;
        self.ref_count = self.ref_count - 1;
        prev
    }

    /// Total length of the underlying stream in bytes.
    pub fn len(&self) -> (r: u64)
        ensures
            r == self.model().length,
    {
        self.file.length()
    }

    /// The encoding format resolved at acquisition.
    pub fn format(&self) -> (r: EncodingFormat)
        ensures
            r == self.model().format,
    {
        self.audio_format
    }

    /// Read up to `n` bytes at the stream's cursor.
    pub fn read(&mut self, n: usize) -> (r: Result<Vec<u8>, StreamError>)
        requires
            old(self).wf(),
        ensures
            final(self).wf(),
            final(self).model().refs == old(self).model().refs,
            final(self).model().length == old(self).model().length,
            final(self).model().format == old(self).model().format,
            final(self).model().data == old(self).model().data,
            final(self).model().offset == old(self).model().offset,
            match r {
                Ok(bytes) => {
                    &&& bytes@.len() <= n
                    &&& final(self).model().abs_pos == old(self).model().abs_pos + bytes@.len()
                    &&& (bytes@.len() == 0 <==> (n == 0 || old(self).model().abs_pos
                        >= old(self).model().length))
                    &&& (bytes@.len() > 0 ==> old(self).model().abs_pos + bytes@.len()
                        <= old(self).model().length && bytes@ == old(self).model().data.subrange(
                        old(self).model().abs_pos as int,
                        old(self).model().abs_pos + bytes@.len() as int,
                    ))
                },
                Err(_) => final(self).model().abs_pos == old(self).model().abs_pos,
            },
    {
        self.file.read(n)
    }

    /// Move the stream's cursor; positions are window-local.
    pub fn seek(&mut self, pos: SeekFrom) -> (r: Result<u64, StreamError>)
        requires
            old(self).wf(),
        ensures
            final(self).wf(),
            final(self).model().refs == old(self).model().refs,
            final(self).model().length == old(self).model().length,
            final(self).model().format == old(self).model().format,
            final(self).model().data == old(self).model().data,
            final(self).model().offset == old(self).model().offset,
            ({
                let off = old(self).model().offset as int;
                let target = match pos {
                    SeekFrom::Start(p) => off + p,
                    SeekFrom::End(e) => old(self).model().length + e,
                    SeekFrom::Current(d) => old(self).model().abs_pos + d,
                };
                &&& (r matches Ok(p) ==> off <= target <= u64::MAX && p == target - off
                    && final(self).model().abs_pos == target)
                &&& (r is Err ==> final(self).model().abs_pos == old(self).model().abs_pos)
                &&& ((target < off || target > u64::MAX) ==> (r matches Err(e) && e
                    == StreamError::InvalidSeek))
                &&& (off <= target <= i64::MAX ==> r is Ok)
            }),
    {
        self.file.seek(pos)
    }
}

} // verus!
