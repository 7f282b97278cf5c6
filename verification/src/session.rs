//! One chunked-read session against a registry entry.
//!
//! A session serves `read(track, offset, limit, chunk_size)` as a finite,
//! non-restartable sequence of chunks: `start` positions the stream at
//! `offset`, then each `step` takes the registry for the duration of one
//! chunk only — so opens, seeks and closes on other ids, and even on the
//! same id, may interleave between chunks — and reads up to
//! `min(chunk_size, limit - read_so_far)` bytes.
//!
//! End-of-stream policy: a chunk is marked `eof` exactly when the
//! underlying read returned zero bytes, which is genuine stream
//! exhaustion. Reaching `limit` ends the session without an `eof`-marked
//! chunk, so a consumer that needs to distinguish the two must track the
//! byte count itself.
//!
//! A session yields at most one `Failed` item and nothing after it. The
//! caller delivers the items through its bounded channel; when the
//! consumer has gone away the caller simply stops stepping, which is the
//! silent termination the interface asks for.

use vstd::prelude::*;
use crate::errors::{StreamError, TrackError};
use crate::ids::TrackId;
use crate::registry::TrackLoader;
use crate::stream::SeekRead;
use crate::track::TrackModel;

verus! {

/// Largest chunk a session will emit, and the default when the caller
/// asks for none.
pub const MAX_CHUNK_SIZE: usize = 10240;

/// Smallest chunk a session will emit.
pub const MIN_CHUNK_SIZE: usize = 128;

/// A requested chunk size clamped into `[128, 10240]`; `0` selects the
/// default of `10240`.
pub open spec fn spec_clamp_chunk_size(raw: u32) -> int {
    if raw == 0 {
        10240
    } else if raw > 10240 {
        10240
    } else if raw < 128 {
        128
    } else {
        raw as int
    }
}

pub fn clamp_chunk_size(raw: u32) -> (r: usize)
    ensures
        r == spec_clamp_chunk_size(raw),
{
    if raw == 0 {
        MAX_CHUNK_SIZE
    } else if raw > 10240 {
        MAX_CHUNK_SIZE
    } else if raw < 128 {
        MIN_CHUNK_SIZE
    } else {
        raw as usize
    }
}

/// One item of a read session's output sequence.
#[derive(Debug, PartialEq, Eq)]
pub enum ReadStep {
    /// Up to one chunk size of bytes; `eof` set on genuine exhaustion.
    Chunk { data: Vec<u8>, eof: bool },
    /// The single error item a failed session ends with.
    Failed(TrackError),
    /// The limit was already reached; nothing was read.
    Done,
}

/// Bytes one output item carries.
pub open spec fn spec_step_bytes(s: ReadStep) -> Seq<u8> {
    match s {
        ReadStep::Chunk { data, eof } => data@,
        ReadStep::Failed(_) => Seq::empty(),
        ReadStep::Done => Seq::empty(),
    }
}

/// All bytes an output sequence carries, in order.
pub open spec fn spec_steps_bytes(steps: Seq<ReadStep>) -> Seq<u8>
    decreases steps.len(),
{
    if steps.len() == 0 {
        Seq::empty()
    } else {
        spec_steps_bytes(steps.drop_last()) + spec_step_bytes(steps.last())
    }
}

/// State of one chunked-read request.
pub struct ReadSession {
    track: TrackId,
    offset: u64,
    limit: usize,
    chunk_size: usize,
    read_so_far: usize,
    started: bool,
    finished: bool,
}

impl ReadSession {
    pub closed spec fn track(&self) -> TrackId {
        self.track
    }

    pub closed spec fn offset(&self) -> u64 {
        self.offset
    }

    pub closed spec fn limit(&self) -> int {
        self.limit as int
    }

    pub closed spec fn chunk_size(&self) -> int {
        self.chunk_size as int
    }

    pub closed spec fn read_so_far(&self) -> int {
        self.read_so_far as int
    }

    pub closed spec fn spec_started(&self) -> bool {
        self.started
    }

    pub closed spec fn spec_finished(&self) -> bool {
        self.finished
    }

    /// Bytes the session may still deliver.
    pub open spec fn remaining(&self) -> int {
        self.limit() - self.read_so_far()
    }

    pub open spec fn inv(&self) -> bool {
        &&& 0 <= self.read_so_far() <= self.limit()
        &&& 128 <= self.chunk_size() <= 10240
    }

    /// The request's parameters are fixed for the session's lifetime.
    pub open spec fn same_request(&self, other: Self) -> bool {
        &&& other.track() == self.track()
        &&& other.offset() == self.offset()
        &&& other.limit() == self.limit()
        &&& other.chunk_size() == self.chunk_size()
    }

    /// A session for `read(track, offset, limit, chunk_size)`, not yet
    /// started; the chunk size is clamped, `0` selecting the default.
    pub fn new(track: TrackId, offset: u64, limit: usize, chunk_size: u32) -> (r: ReadSession)
        ensures
            r.inv(),
            r.track() == track,
            r.offset() == offset,
            r.limit() == limit,
            r.chunk_size() == spec_clamp_chunk_size(chunk_size),
            r.read_so_far() == 0,
            !r.spec_started(),
            !r.spec_finished(),
    {
        ReadSession {
            track,
            offset,
            limit,
            chunk_size: clamp_chunk_size(chunk_size),
            read_so_far: 0,
            started: false,
            finished: false,
        }
    }

    /// Position the track at the session's offset. `None` means the
    /// session is running; an error is the one item the output sequence
    /// ends with, and the session is finished.
    pub fn start<S: SeekRead>(&mut self, loader: &mut TrackLoader<S>) -> (r: Option<TrackError>)
        requires
            old(self).inv(),
            !old(self).spec_started(),
            !old(self).spec_finished(),
            old(loader).wf(),
        ensures
            final(self).inv(),
            old(self).same_request(*final(self)),
            final(self).read_so_far() == old(self).read_so_far(),
            final(loader).wf(),
            final(loader).count() == old(loader).count(),
            old(loader).frame_except(*final(loader), old(self).track()),
            old(loader).same_entry_except_pos(*final(loader), old(self).track()),
            old(loader).contains(old(self).track()) && old(loader).model_of(
                old(self).track(),
            ).offset + old(self).offset() <= i64::MAX ==> r is None,
            match r {
                None => {
                    &&& old(loader).contains(old(self).track())
                    &&& old(loader).model_of(old(self).track()).offset + old(self).offset()
                        <= u64::MAX
                    &&& final(self).spec_started()
                    &&& !final(self).spec_finished()
                    &&& final(loader).contains(old(self).track())
                    &&& final(loader).model_of(old(self).track()) == (TrackModel {
                        abs_pos: (old(loader).model_of(old(self).track()).offset + old(
                            self,
                        ).offset()) as nat,
                        ..old(loader).model_of(old(self).track())
                    })
                },
                Some(e) => {
                    &&& final(self).spec_finished()
                    &&& (e == TrackError::NotOpen || e == TrackError::IoError)
                    &&& (e == TrackError::NotOpen <==> !old(loader).contains(old(self).track()))
                    &&& (e == TrackError::IoError ==> old(loader).contains(old(self).track())
                        && old(loader).model_of(old(self).track()).offset + old(self).offset()
                        > i64::MAX && old(loader).same_entry(*final(loader), old(self).track()))
                },
            },
    {
        match loader.seek(&self.track, self.offset) {
            Ok(_) => {
                self.started = true;
                None
            },
            Err(e) => {
                self.finished = true;
                Some(e)
            },
        }
    }

    /// Produce the next item of the output sequence: one chunk, the
    /// single error item, or `Done` when the limit leaves nothing to read
    /// — in which case the registry is not touched at all, so a session
    /// over a zero limit never performs any underlying read.
    pub fn step<S: SeekRead>(&mut self, loader: &mut TrackLoader<S>) -> (r: ReadStep)
        requires
            old(self).inv(),
            old(self).spec_started(),
            !old(self).spec_finished(),
            old(loader).wf(),
        ensures
            final(self).inv(),
            old(self).same_request(*final(self)),
            final(self).spec_started(),
            final(loader).wf(),
            final(loader).count() == old(loader).count(),
            old(loader).frame_except(*final(loader), old(self).track()),
            old(loader).same_entry_except_pos(*final(loader), old(self).track()),
            match r {
                ReadStep::Done => {
                    &&& old(self).remaining() == 0
                    &&& *final(loader) == *old(loader)
                    &&& final(self).spec_finished()
                    &&& final(self).read_so_far() == old(self).read_so_far()
                },
                ReadStep::Failed(e) => {
                    &&& old(self).remaining() > 0
                    &&& final(self).spec_finished()
                    &&& final(self).read_so_far() == old(self).read_so_far()
                    &&& (e == TrackError::NotOpen || e == TrackError::IoError)
                    &&& (e == TrackError::NotOpen <==> !old(loader).contains(old(self).track()))
                    &&& (e == TrackError::IoError ==> old(loader).contains(old(self).track())
                        && old(loader).same_entry(*final(loader), old(self).track()))
                },
                ReadStep::Chunk { data, eof } => {
                    &&& old(self).remaining() > 0
                    &&& old(loader).contains(old(self).track())
                    &&& final(loader).contains(old(self).track())
                    &&& ({
                        let m = old(loader).model_of(old(self).track());
                        let n = if old(self).chunk_size() < old(self).remaining() {
                            old(self).chunk_size()
                        } else {
                            old(self).remaining()
                        };
                        &&& data@.len() <= n
                        &&& (data@.len() == 0 <==> m.abs_pos >= m.length)
                        &&& (data@.len() > 0 ==> m.abs_pos + data@.len() <= m.length && data@
                            == m.data.subrange(m.abs_pos as int, m.abs_pos + data@.len() as int))
                        &&& eof == (data@.len() == 0)
                        &&& final(loader).model_of(old(self).track()) == (TrackModel {
                            abs_pos: (m.abs_pos + data@.len()) as nat,
                            ..m
                        })
                        &&& final(self).read_so_far() == old(self).read_so_far() + data@.len()
                        &&& (final(self).spec_finished() <==> (eof || final(self).read_so_far()
                            >= old(self).limit()))
                    })
                },
            },
    {
        if self.read_so_far >= self.limit {
            self.finished = true;
            return ReadStep::Done;
        }
        let remaining = self.limit - self.read_so_far;
        let n = if self.chunk_size < remaining {
            self.chunk_size
        } else {
            remaining
        };
        let ghost pre_loader = *loader;
        match loader.get_opened_mut(&self.track) {
            None => {
                self.finished = true;
                ReadStep::Failed(TrackError::NotOpen)
            },
            Some(t) => {
                let res = t.read(n);
                proof {
                    TrackLoader::lemma_entry_update(pre_loader, *loader, self.track);
                }
                self.absorb_read(res)
            },
        }
    }

    /// What the session emits for one underlying read outcome, and how
    /// the byte accounting moves: the returned bytes make one chunk,
    /// marked `eof` exactly when there are none; they count toward the
    /// limit, and the session finishes at exhaustion or at the limit. A
    /// failed read is the single error item. This is the whole of a
    /// step's chunk arithmetic, checkable on given values with no stream
    /// behind it.
    pub fn absorb_read(&mut self, outcome: Result<Vec<u8>, StreamError>) -> (r: ReadStep)
        requires
            old(self).inv(),
            old(self).spec_started(),
            !old(self).spec_finished(),
            old(self).remaining() > 0,
            outcome matches Ok(bytes) ==> bytes@.len() <= old(self).remaining(),
        ensures
            final(self).inv(),
            old(self).same_request(*final(self)),
            final(self).spec_started(),
            match r {
                ReadStep::Chunk { data, eof } => {
                    &&& outcome matches Ok(bytes) && data == bytes
                    &&& eof == (data@.len() == 0)
                    &&& final(self).read_so_far() == old(self).read_so_far() + data@.len()
                    &&& (final(self).spec_finished() <==> (eof || final(self).read_so_far()
                        >= old(self).limit()))
                },
                ReadStep::Failed(e) => {
                    &&& outcome is Err
                    &&& e == TrackError::IoError
                    &&& final(self).spec_finished()
                    &&& final(self).read_so_far() == old(self).read_so_far()
                },
                ReadStep::Done => false,
            },
    {
        match outcome {
            Ok(bytes) => {
                let k = bytes.len();
                self.read_so_far = self.read_so_far + k;
                let eof = k == 0;
                if eof || self.read_so_far >= self.limit {
                    self.finished = true;
                }
                ReadStep::Chunk { data: bytes, eof }
            },
            Err(_) => {
                self.finished = true;
                ReadStep::Failed(TrackError::IoError)
            },
        }
    }

    /// Whether the output sequence has ended; stepping a finished session
    /// is not part of any run.
    pub fn is_finished(&self) -> (r: bool)
        ensures
            r == self.spec_finished(),
    {
        self.finished
    }

    /// The whole output sequence of one request, for a caller that does
    /// not stream: start, then step until the session finishes. That this
    /// loop terminates is the finiteness of the sequence — every chunk
    /// either carries bytes toward the limit or ends the session.
    ///
    /// Everything before the last item is a chunk carrying at least one
    /// byte; an error, an empty `eof` chunk or `Done` can only stand
    /// last. The chunks' bytes, concatenated, are exactly the consecutive
    /// bytes of the track's stream from the requested offset on, and
    /// their total is the session's final byte count.
    ///
    /// A streaming caller drives `start` and `step` itself instead,
    /// releasing the registry and yielding to its channel between chunks.
    pub fn run<S: SeekRead>(&mut self, loader: &mut TrackLoader<S>) -> (r: Vec<ReadStep>)
        requires
            old(self).inv(),
            !old(self).spec_started(),
            !old(self).spec_finished(),
            old(self).read_so_far() == 0,
            old(loader).wf(),
        ensures
            final(self).inv(),
            old(self).same_request(*final(self)),
            final(self).spec_finished(),
            final(loader).wf(),
            final(loader).count() == old(loader).count(),
            old(loader).frame_except(*final(loader), old(self).track()),
            old(loader).same_entry_except_pos(*final(loader), old(self).track()),
            r@.len() >= 1,
            forall|i: int|
                0 <= i < r@.len() - 1 ==> (#[trigger] r@[i] matches ReadStep::Chunk { data, eof }
                    && data@.len() > 0 && !eof),
            spec_steps_bytes(r@).len() == final(self).read_so_far(),
            ({
                let m = old(loader).model_of(old(self).track());
                let start_abs = m.offset + old(self).offset();
                old(loader).contains(old(self).track()) && start_abs + final(self).read_so_far()
                    <= m.length ==> spec_steps_bytes(r@) == m.data.subrange(
                    start_abs as int,
                    start_abs + final(self).read_so_far(),
                )
            }),
    {
        let ghost loader0 = *loader;
        let ghost tid = old(self).track();
        let ghost m0 = loader0.model_of(tid);
        let ghost sa = m0.offset + old(self).offset();
        let mut out: Vec<ReadStep> = Vec::new();
        if let Some(e) = self.start(loader) {
            out.push(ReadStep::Failed(e));
            proof {
                assert(out@.len() == 1);
                assert(out@.drop_last() =~= Seq::<ReadStep>::empty());
                assert(spec_steps_bytes(out@.drop_last()) =~= Seq::<u8>::empty());
                assert(spec_step_bytes(out@.last()) =~= Seq::<u8>::empty());
                assert(spec_steps_bytes(out@) =~= Seq::<u8>::empty());
                if loader0.contains(tid) && sa <= m0.length {
                    loader0.lemma_model_length(tid);
                    assert(m0.data.subrange(sa as int, sa as int) =~= Seq::<u8>::empty());
                }
            }
            return out;
        }
        while !self.is_finished()
            invariant
                self.inv(),
                self.spec_started(),
                old(self).same_request(*self),
                loader.wf(),
                loader.count() == loader0.count(),
                loader0.frame_except(*loader, tid),
                loader0.same_entry_except_pos(*loader, tid),
                loader0.wf(),
                loader0.contains(tid),
                tid == old(self).track(),
                m0 == loader0.model_of(tid),
                sa == m0.offset + old(self).offset(),
                loader.model_of(tid).abs_pos == sa + self.read_so_far(),
                self.spec_finished() ==> out@.len() >= 1,
                forall|i: int|
                    0 <= i < out@.len() - (if self.spec_finished() {
                        1int
                    } else {
                        0int
                    }) ==> (#[trigger] out@[i] matches ReadStep::Chunk { data, eof }
                        && data@.len() > 0 && !eof),
                spec_steps_bytes(out@).len() == self.read_so_far(),
                self.read_so_far() > 0 ==> sa + self.read_so_far() <= m0.length
                    && spec_steps_bytes(out@) == m0.data.subrange(
                    sa as int,
                    sa + self.read_so_far(),
                ),
                self.read_so_far() == 0 ==> spec_steps_bytes(out@) == Seq::<u8>::empty(),
            decreases self.limit() - self.read_so_far() + (if self.spec_finished() {
                0int
            } else {
                1int
            }),
        {
            let ghost out_pre = out@;
            let ghost loader_pre = *loader;
            let ghost read_pre = self.read_so_far();
            let step = self.step(loader);
            let ghost gstep = step;
            proof {
                assert forall|o: TrackId| o != tid implies #[trigger] loader0.same_entry(
                    *loader,
                    o,
                ) by {
                    assert(loader0.same_entry(loader_pre, o));
                    assert(loader_pre.same_entry(*loader, o));
                }
            }
            out.push(step);
            proof {
                assert(out@.drop_last() =~= out_pre);
                assert(out@.last() == gstep);
                assert(spec_steps_bytes(out@) == spec_steps_bytes(out_pre) + spec_step_bytes(
                    gstep,
                ));
                match gstep {
                    ReadStep::Chunk { data, eof } => {
                        let k = data@.len() as int;
                        let m_pre = loader_pre.model_of(tid);
                        assert(m_pre.abs_pos == sa + read_pre);
                        assert(m_pre.data == m0.data && m_pre.length == m0.length);
                        if k > 0 {
                            loader0.lemma_model_length(tid);
                            assert(data@ == m0.data.subrange(sa + read_pre, sa + read_pre + k));
                            if read_pre > 0 {
                                assert(spec_steps_bytes(out@) =~= m0.data.subrange(
                                    sa as int,
                                    sa + read_pre + k,
                                ));
                            } else {
                                assert(spec_steps_bytes(out@) =~= m0.data.subrange(
                                    sa as int,
                                    sa + k,
                                ));
                            }
                        } else {
                            assert(spec_steps_bytes(out@) =~= spec_steps_bytes(out_pre));
                        }
                    },
                    ReadStep::Failed(e) => {
                        assert(spec_steps_bytes(out@) =~= spec_steps_bytes(out_pre));
                    },
                    ReadStep::Done => {
                        assert(spec_steps_bytes(out@) =~= spec_steps_bytes(out_pre));
                    },
                }
            }
        }
        proof {
            if self.read_so_far() == 0 && loader0.contains(tid) && sa <= m0.length {
                loader0.lemma_model_length(tid);
                assert(m0.data.subrange(sa as int, sa as int) =~= Seq::<u8>::empty());
            }
        }
        out
    }
}

} // verus!
