//! The opened-track registry: a reference-counted cache of acquired
//! streams, keyed by track id.
//!
//! The registry is the single owner of every [`OpenedTrack`]; callers reach
//! it through one exclusive access path (the embedding program guards it
//! with a lock), so its operations are specified sequentially. Per id the
//! life cycle is: absent, opened with reference count 1 by the first
//! `open`, counted up by further `open`s, counted down by `close`, and
//! removed exactly when a `close` brings the count to zero.
//!
//! Acquisition of an absent track is network work that the registry cannot
//! do itself: `open` takes the acquisition's outcome — the acquired track,
//! or the internal diagnosis of the failure — and `open_cached` serves the
//! hit path without any acquisition.

use vstd::prelude::*;
use crate::encoding::EncodingFormat;
use crate::errors::{AcquireError, TrackError};
use crate::ids::{ItemType, TrackId};
use crate::stream::{SeekFrom, SeekRead};
use crate::track::{OpenedTrack, TrackModel};

verus! {

/// Reference-counted cache of currently open tracks, keyed by track id.
pub struct TrackLoader<S: SeekRead> {
    opened_tracks: Vec<(TrackId, OpenedTrack<S>)>,
}

impl<S: SeekRead> TrackLoader<S> {
    /// The registry's entries as a list of (id, track) pairs.
    pub closed spec fn entries(&self) -> Seq<(TrackId, OpenedTrack<S>)> {
        self.opened_tracks@
    }

    /// How many tracks are currently open.
    pub open spec fn count(&self) -> nat {
        self.entries().len()
    }

    pub open spec fn key_at(&self, i: int) -> TrackId {
        self.entries()[i].0
    }

    pub open spec fn track_at(&self, i: int) -> TrackModel {
        self.entries()[i].1.model()
    }

    /// Whether an entry for `id` is present.
    pub open spec fn contains(&self, id: TrackId) -> bool {
        exists|i: int| 0 <= i < self.count() && #[trigger] self.key_at(i) == id
    }

    /// Index of the entry for `id`, meaningful when `contains(id)`.
    pub open spec fn index_of(&self, id: TrackId) -> int {
        choose|i: int| 0 <= i < self.count() && #[trigger] self.key_at(i) == id
    }

    /// Model of the entry for `id`, meaningful when `contains(id)`.
    pub open spec fn model_of(&self, id: TrackId) -> TrackModel {
        self.track_at(self.index_of(id))
    }

    /// Keys are unique.
    pub open spec fn keys_unique(&self) -> bool {
        forall|i: int, j: int|
            0 <= i < j < self.count() ==> #[trigger] self.key_at(i) != #[trigger] self.key_at(j)
    }

    /// Keys are unique and every entry is a well-formed track that someone
    /// holds open.
    pub open spec fn wf(&self) -> bool {
        &&& self.keys_unique()
        &&& forall|i: int|
            0 <= i < self.count() ==> (#[trigger] self.entries()[i]).1.wf()
                && self.entries()[i].1.model().refs >= 1
    }

    /// `other` holds the same entry for `id` as `self`.
    pub open spec fn same_entry(&self, other: Self, id: TrackId) -> bool {
        &&& other.contains(id) == self.contains(id)
        &&& (self.contains(id) ==> other.model_of(id) == self.model_of(id))
    }

    /// Every id but `except` is untouched between `self` and `other`.
    pub open spec fn frame_except(&self, other: Self, except: TrackId) -> bool {
        forall|o: TrackId| o != except ==> #[trigger] self.same_entry(other, o)
    }

    /// `other` holds the same entry for `id` as `self`, except that the
    /// stream's cursor may have moved: what a read or seek leaves behind.
    pub open spec fn same_entry_except_pos(&self, other: Self, id: TrackId) -> bool {
        &&& other.contains(id) == self.contains(id)
        &&& (self.contains(id) ==> other.model_of(id) == (TrackModel {
            abs_pos: other.model_of(id).abs_pos,
            ..self.model_of(id)
        }))
    }

    /// With unique keys, any index whose key is `id` is the entry index.
    pub proof fn lemma_index(&self, id: TrackId, i: int)
        requires
            self.keys_unique(),
            0 <= i < self.count(),
            self.key_at(i) == id,
        ensures
            self.contains(id),
            self.index_of(id) == i,
    {
        let j = self.index_of(id);
        if i != j {
            if i < j {
                assert(self.key_at(i) != self.key_at(j));
            } else {
                assert(self.key_at(j) != self.key_at(i));
            }
        }
    }

    /// A resident entry's recorded length is its stream's byte count.
    pub proof fn lemma_model_length(&self, id: TrackId)
        requires
            self.wf(),
            self.contains(id),
        ensures
            self.model_of(id).data.len() == self.model_of(id).length,
    {
        let i = self.index_of(id);
        assert(self.entries()[i].1.wf());
    }

    /// What replacing the entry at `id`'s index, key kept, does to the
    /// registry: everything else is untouched, and well-formedness is kept
    /// whenever the new track is well formed and still held open.
    pub proof fn lemma_entry_update(pre: Self, post: Self, id: TrackId)
        requires
            pre.wf(),
            pre.contains(id),
            post.count() == pre.count(),
            post.key_at(pre.index_of(id)) == id,
            forall|j: int|
                0 <= j < pre.count() && j != pre.index_of(id) ==> #[trigger] post.entries()[j]
                    == pre.entries()[j],
        ensures
            post.keys_unique(),
            post.contains(id),
            post.index_of(id) == pre.index_of(id),
            post.model_of(id) == post.track_at(pre.index_of(id)),
            pre.frame_except(post, id),
            (post.entries()[pre.index_of(id)].1.wf() && post.track_at(pre.index_of(id)).refs
                >= 1) ==> post.wf(),
    {
        let i = pre.index_of(id);
        assert forall|p: int, q: int| 0 <= p < q < post.count() implies #[trigger] post.key_at(p)
            != #[trigger] post.key_at(q) by {
            assert(pre.key_at(p) != pre.key_at(q));
            assert(post.key_at(p) == pre.key_at(p));
            assert(post.key_at(q) == pre.key_at(q));
        }
        post.lemma_index(id, i);
        assert forall|o: TrackId| o != id implies #[trigger] pre.same_entry(post, o) by {
            if pre.contains(o) {
                let j = pre.index_of(o);
                pre.lemma_index(o, j);
                assert(post.entries()[j] == pre.entries()[j]);
                post.lemma_index(o, j);
            } else {
                if post.contains(o) {
                    let j = post.index_of(o);
                    assert(pre.key_at(j) == o);
                }
            }
        }
    }

    /// What removing the entry for `id` does to the registry; the removed
    /// entry itself need not be well formed any more (its last reference
    /// has just been dropped).
    pub proof fn lemma_entry_remove(pre: Self, post: Self, id: TrackId)
        requires
            pre.keys_unique(),
            pre.contains(id),
            forall|j: int|
                0 <= j < pre.count() && j != pre.index_of(id)
                    ==> (#[trigger] pre.entries()[j]).1.wf()
                    && pre.entries()[j].1.model().refs >= 1,
            post.entries() == pre.entries().remove(pre.index_of(id)),
        ensures
            post.wf(),
            post.count() == pre.count() - 1,
            !post.contains(id),
            pre.frame_except(post, id),
    {
        let i = pre.index_of(id);
        assert forall|p: int, q: int| 0 <= p < q < post.count() implies #[trigger] post.key_at(p)
            != #[trigger] post.key_at(q) by {
            let p0 = if p < i { p } else { p + 1 };
            let q0 = if q < i { q } else { q + 1 };
            assert(post.entries()[p] == pre.entries()[p0]);
            assert(post.entries()[q] == pre.entries()[q0]);
            assert(pre.key_at(p0) != pre.key_at(q0));
        }
        assert forall|j: int| 0 <= j < post.count() implies (#[trigger] post.entries()[j]).1.wf()
            && post.entries()[j].1.model().refs >= 1 by {
            let j0 = if j < i { j } else { j + 1 };
            assert(post.entries()[j] == pre.entries()[j0]);
            assert(pre.entries()[j0].1.wf() && pre.entries()[j0].1.model().refs >= 1);
        }
        if post.contains(id) {
            let j = post.index_of(id);
            let j0 = if j < i { j } else { j + 1 };
            assert(post.entries()[j] == pre.entries()[j0]);
            assert(pre.key_at(j0) == id);
            pre.lemma_index(id, j0);
        }
        assert forall|o: TrackId| o != id implies #[trigger] pre.same_entry(post, o) by {
            if pre.contains(o) {
                let j0 = pre.index_of(o);
                pre.lemma_index(o, j0);
                let j = if j0 < i { j0 } else { j0 - 1 };
                assert(j0 != i);
                assert(post.entries()[j] == pre.entries()[j0]);
                post.lemma_index(o, j);
            } else {
                if post.contains(o) {
                    let j = post.index_of(o);
                    let j0 = if j < i { j } else { j + 1 };
                    assert(post.entries()[j] == pre.entries()[j0]);
                    assert(pre.key_at(j0) == o);
                }
            }
        }
    }

    /// What appending a fresh entry does to the registry.
    pub proof fn lemma_entry_push(pre: Self, post: Self, id: TrackId)
        requires
            pre.wf(),
            !pre.contains(id),
            post.count() == pre.count() + 1,
            post.key_at(pre.count() as int) == id,
            post.entries()[pre.count() as int].1.wf(),
            post.entries()[pre.count() as int].1.model().refs >= 1,
            forall|j: int|
                0 <= j < pre.count() ==> #[trigger] post.entries()[j] == pre.entries()[j],
        ensures
            post.wf(),
            post.contains(id),
            post.index_of(id) == pre.count(),
            post.model_of(id) == post.track_at(pre.count() as int),
            pre.frame_except(post, id),
    {
        let n = pre.count() as int;
        assert forall|p: int, q: int| 0 <= p < q < post.count() implies #[trigger] post.key_at(p)
            != #[trigger] post.key_at(q) by {
            if q < n {
                assert(post.entries()[p] == pre.entries()[p]);
                assert(post.entries()[q] == pre.entries()[q]);
                assert(pre.key_at(p) != pre.key_at(q));
            } else {
                assert(post.entries()[p] == pre.entries()[p]);
                assert(pre.key_at(p) == post.key_at(p));
                if post.key_at(p) == id {
                    pre.lemma_index(id, p);
                }
            }
        }
        post.lemma_index(id, n);
        assert forall|j: int| 0 <= j < post.count() implies (#[trigger] post.entries()[j]).1.wf()
            && post.entries()[j].1.model().refs >= 1 by {
            if j < n {
                assert(post.entries()[j] == pre.entries()[j]);
                assert(pre.entries()[j].1.wf() && pre.entries()[j].1.model().refs >= 1);
            }
        }
        assert forall|o: TrackId| o != id implies #[trigger] pre.same_entry(post, o) by {
            if pre.contains(o) {
                let j = pre.index_of(o);
                pre.lemma_index(o, j);
                assert(post.entries()[j] == pre.entries()[j]);
                post.lemma_index(o, j);
            } else {
                if post.contains(o) {
                    let j = post.index_of(o);
                    if j < n {
                        assert(pre.key_at(j) == o);
                    }
                }
            }
        }
    }

    /// An empty registry.
    pub fn new() -> (r: TrackLoader<S>)
        ensures
            r.wf(),
            r.count() == 0,
            forall|id: TrackId| !r.contains(id),
    {
        TrackLoader { opened_tracks: Vec::new() }
    }

    /// Index of the entry for `track`, if present.
    fn find(&self, track: &TrackId) -> (r: Option<usize>)
        ensures
            match r {
                Some(i) => 0 <= i < self.count() && self.key_at(i as int) == *track,
                None => !self.contains(*track),
            },
    {
        let n = self.opened_tracks.len();
        let mut i: usize = 0;
        while i < n
            invariant
                n == self.count(),
                0 <= i <= n,
                forall|j: int| 0 <= j < i ==> #[trigger] self.key_at(j) != *track,
            decreases n - i,
        {
            if self.opened_tracks[i].0 == *track {
                return Some(i);
            }
            i += 1;
        }
        None
    }

    /// Read-only access to the entry for `track`; no reference-count
    /// change.
    pub fn get_opened(&self, track: &TrackId) -> (r: Option<&OpenedTrack<S>>)
        requires
            self.wf(),
        ensures
            match r {
                Some(t) => {
                    &&& self.contains(*track)
                    &&& t.model() == self.model_of(*track)
                    &&& t.wf()
                },
                None => !self.contains(*track),
            },
    {
        match self.find(track) {
            Some(i) => {
                proof {
                    self.lemma_index(*track, i as int);
                }
                Some(&self.opened_tracks[i].1)
            },
            None => None,
        }
    }

    /// Mutable access to the entry for `track`; no reference-count change.
    ///
    /// The contract pins the registry's final entry list to the old one
    /// with only this entry replaced by whatever the borrower leaves
    /// behind; [`Self::lemma_entry_update`] turns that into the per-id
    /// view once the borrow ends.
    pub fn get_opened_mut(&mut self, track: &TrackId) -> (r: Option<&mut OpenedTrack<S>>)
        requires
            old(self).wf(),
        ensures
            match r {
                Some(t) => {
                    &&& old(self).contains(*track)
                    &&& *t == old(self).entries()[old(self).index_of(*track)].1
                    &&& t.model() == old(self).model_of(*track)
                    &&& t.wf()
                    &&& final(self).count() == old(self).count()
                    &&& final(self).key_at(old(self).index_of(*track)) == *track
                    &&& final(self).entries()[old(self).index_of(*track)].1 == *final(t)
                    &&& forall|j: int|
                        0 <= j < old(self).count() && j != old(self).index_of(*track)
                            ==> #[trigger] final(self).entries()[j] == old(self).entries()[j]
                },
                None => {
                    &&& !old(self).contains(*track)
                    &&& *final(self) == *old(self)
                },
            },
    {
        match self.find(track) {
            Some(i) => {
                proof {
                    self.lemma_index(*track, i as int);
                }
                let t = &mut self.opened_tracks[i].1;
                Some(t)
            },
            None => None,
        }
    }

    /// The hit path of `open`: if the track is resident, take one more
    /// reference and hand back the length and format recorded at first
    /// acquisition, with no acquisition work of any kind; if it is absent,
    /// change nothing and report the miss.
    pub fn open_cached(&mut self, track: &TrackId) -> (r: Option<(u64, EncodingFormat)>)
        requires
            old(self).wf(),
        ensures
            final(self).wf(),
            match r {
                Some((len, fmt)) => {
                    &&& old(self).contains(*track)
                    &&& len == old(self).model_of(*track).length
                    &&& fmt == old(self).model_of(*track).format
                    &&& final(self).count() == old(self).count()
                    &&& final(self).contains(*track)
                    &&& final(self).model_of(*track) == (TrackModel {
                        refs: if old(self).model_of(*track).refs == u16::MAX {
                            u16::MAX
                        } else {
                            (old(self).model_of(*track).refs + 1) as u16
                        },
                        ..old(self).model_of(*track)
                    })
                    &&& old(self).frame_except(*final(self), *track)
                },
                None => {
                    &&& !old(self).contains(*track)
                    &&& *final(self) == *old(self)
                },
            },
    {
        let ghost pre = *self;
        match self.find(track) {
            Some(i) => {
                proof {
                    self.lemma_index(*track, i as int);
                }
                let (len, fmt) = {
                    let t = &mut self.opened_tracks[i].1;
                    t.incr_ref();
                    (t.len(), t.format())
                };
                proof {
                    Self::lemma_entry_update(pre, *self, *track);
                }
                Some((len, fmt))
            },
            None => None,
        }
    }

    /// Complete an `open` for an absent track with the outcome of the
    /// acquisition: insert the acquired track with reference count 1 and
    /// return its recorded length and format. Whatever the internal
    /// diagnosis of a failed acquisition, the caller sees the single
    /// opaque `LoadFailed`.
    pub fn open(&mut self, track: TrackId, loaded: Result<OpenedTrack<S>, AcquireError>) -> (r:
        Result<(u64, EncodingFormat), TrackError>)
        requires
            old(self).wf(),
            !old(self).contains(track),
            track.item_type == ItemType::Track,
            loaded matches Ok(t) ==> t.wf() && t.model().refs == 1,
        ensures
            final(self).wf(),
            match r {
                Ok((len, fmt)) => {
                    &&& loaded matches Ok(t) && len == t.model().length && fmt
                        == t.model().format
                    &&& final(self).count() == old(self).count() + 1
                    &&& final(self).contains(track)
                    &&& final(self).model_of(track) == loaded->Ok_0.model()
                    &&& old(self).frame_except(*final(self), track)
                },
                Err(e) => {
                    &&& e == TrackError::LoadFailed
                    &&& loaded is Err
                    &&& *final(self) == *old(self)
                },
            },
    {
        let ghost pre = *self;
        match loaded {
            Ok(t) => {
                let len = t.len();
                let fmt = t.format();
                self.opened_tracks.push((track, t));
                proof {
                    Self::lemma_entry_push(pre, *self, track);
                }
                Ok((len, fmt))
            },
            Err(_) => Err(TrackError::LoadFailed),
        }
    }

    /// Drop one reference to the track; remove and release the entry
    /// exactly when the count reaches zero. Closing an id that is not
    /// open is the caller's error.
    pub fn close(&mut self, track: &TrackId) -> (r: Result<(), TrackError>)
        requires
            old(self).wf(),
        ensures
            final(self).wf(),
            match r {
                Ok(()) => {
                    &&& old(self).contains(*track)
                    &&& (old(self).model_of(*track).refs > 1 ==> {
                        &&& final(self).count() == old(self).count()
                        &&& final(self).contains(*track)
                        &&& final(self).model_of(*track) == (TrackModel {
                            refs: (old(self).model_of(*track).refs - 1) as u16,
                            ..old(self).model_of(*track)
                        })
                    })
                    &&& (old(self).model_of(*track).refs == 1 ==> {
                        &&& final(self).count() == old(self).count() - 1
                        &&& !final(self).contains(*track)
                    })
                    &&& old(self).frame_except(*final(self), *track)
                },
                Err(e) => {
                    &&& e == TrackError::NotOpen
                    &&& !old(self).contains(*track)
                    &&& *final(self) == *old(self)
                },
            },
    {
        let ghost pre = *self;
        match self.find(track) {
            Some(i) => {
                proof {
                    self.lemma_index(*track, i as int);
                }
                let prev = {
                    let t = &mut self.opened_tracks[i].1;
                    t.decr_ref()
                };
                proof {
                    Self::lemma_entry_update(pre, *self, *track);
                }
                if prev <= 1 {
                    let ghost mid = *self;
                    self.opened_tracks.remove(i);
                    proof {
                        assert(mid.entries().remove(i as int) =~= self.entries());
                        Self::lemma_entry_remove(mid, *self, *track);
                        assert forall|o: TrackId| o != *track implies #[trigger] pre.same_entry(
                            *self,
                            o,
                        ) by {
                            assert(pre.same_entry(mid, o));
                            assert(mid.same_entry(*self, o));
                        }
                    }
                    Ok(())
                } else {
                    Ok(())
                }
            },
            None => Err(TrackError::NotOpen),
        }
    }

    /// Reposition the track's stream to `position`, counted from the
    /// start of its logical window; no reference-count change. Owed to
    /// succeed whenever the absolute target fits in a signed 64-bit seek
    /// target.
    pub fn seek(&mut self, track: &TrackId, position: u64) -> (r: Result<u64, TrackError>)
        requires
            old(self).wf(),
        ensures
            final(self).wf(),
            final(self).count() == old(self).count(),
            old(self).contains(*track) && old(self).model_of(*track).offset + position
                <= i64::MAX ==> r is Ok,
            match r {
                Ok(p) => {
                    &&& old(self).contains(*track)
                    &&& old(self).model_of(*track).offset + position <= u64::MAX
                    &&& p == position
                    &&& final(self).contains(*track)
                    &&& final(self).model_of(*track) == (TrackModel {
                        abs_pos: (old(self).model_of(*track).offset + position) as nat,
                        ..old(self).model_of(*track)
                    })
                    &&& old(self).frame_except(*final(self), *track)
                },
                Err(e) => {
                    &&& (e == TrackError::NotOpen || e == TrackError::IoError)
                    &&& (e == TrackError::NotOpen <==> !old(self).contains(*track))
                    &&& (e == TrackError::NotOpen ==> *final(self) == *old(self))
                    &&& (e == TrackError::IoError ==> old(self).contains(*track)
                        && old(self).model_of(*track).offset + position > i64::MAX
                        && final(self).contains(*track) && final(self).model_of(*track)
                        == old(self).model_of(*track))
                    &&& old(self).frame_except(*final(self), *track)
                },
            },
    {
        let ghost pre = *self;
        match self.get_opened_mut(track) {
            Some(t) => {
                let res = t.seek(SeekFrom::Start(position));
                proof {
                    Self::lemma_entry_update(pre, *self, *track);
                }
                match res {
                    Ok(p) => Ok(p),
                    Err(_) => Err(TrackError::IoError),
                }
            },
            None => Err(TrackError::NotOpen),
        }
    }
}

} // verus!
