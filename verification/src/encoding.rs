//! Encoding formats offered for a track, and the selector that picks the
//! preferred one.

use vstd::prelude::*;
use crate::errors::AcquireError;
use crate::ids::FileId;

verus! {

/// One concrete container/bitrate variant offered for a track.
#[derive(Clone, Copy, Debug, PartialEq, Eq, Hash, Structural)]
pub enum EncodingFormat {
    OggVorbis96,
    OggVorbis160,
    OggVorbis320,
    Mp3256,
    Mp3320,
    Mp3160,
    Mp396,
    Mp3160Enc,
    Aac24,
    Aac48,
    Flac,
}

/// Whether the format is an Ogg Vorbis container.
pub open spec fn spec_is_ogg_vorbis(f: EncodingFormat) -> bool {
    f == EncodingFormat::OggVorbis96 || f == EncodingFormat::OggVorbis160
        || f == EncodingFormat::OggVorbis320
}

/// Whether the format is an MP3 container (excluding the separately
/// encrypted variant, which is never served to callers as `audio/mpeg`).
pub open spec fn spec_is_mp3(f: EncodingFormat) -> bool {
    f == EncodingFormat::Mp3256 || f == EncodingFormat::Mp3320 || f == EncodingFormat::Mp3160
        || f == EncodingFormat::Mp396
}

impl EncodingFormat {
    pub fn is_ogg_vorbis(&self) -> (r: bool)
        ensures
            r == spec_is_ogg_vorbis(*self),
    {
        match self {
            EncodingFormat::OggVorbis96 => true,
            EncodingFormat::OggVorbis160 => true,
            EncodingFormat::OggVorbis320 => true,
            _ => false,
        }
    }
}

/// Nominal throughput of the format in bytes per second, from a fixed
/// kilobit-rate table; used only for informational estimates.
pub open spec fn spec_stream_data_rate(f: EncodingFormat) -> int {
    (match f {
        EncodingFormat::OggVorbis96 => 12int,
        EncodingFormat::OggVorbis160 => 20int,
        EncodingFormat::OggVorbis320 => 40int,
        EncodingFormat::Mp3256 => 32int,
        EncodingFormat::Mp3320 => 40int,
        EncodingFormat::Mp3160 => 20int,
        EncodingFormat::Mp396 => 12int,
        EncodingFormat::Mp3160Enc => 20int,
        EncodingFormat::Aac24 => 3int,
        EncodingFormat::Aac48 => 6int,
        EncodingFormat::Flac => 112int,
    }) * 1024
}

/// Bytes-per-second estimate for the format.
pub fn stream_data_rate(f: EncodingFormat) -> (r: usize)
    ensures
        r == spec_stream_data_rate(f),
{
    let kbps: usize = match f {
        EncodingFormat::OggVorbis96 => 12,
        EncodingFormat::OggVorbis160 => 20,
        EncodingFormat::OggVorbis320 => 40,
        EncodingFormat::Mp3256 => 32,
        EncodingFormat::Mp3320 => 40,
        EncodingFormat::Mp3160 => 20,
        EncodingFormat::Mp396 => 12,
        EncodingFormat::Mp3160Enc => 20,
        EncodingFormat::Aac24 => 3,
        EncodingFormat::Aac48 => 6,
        EncodingFormat::Flac => 112,
    };
    kbps * 1024
}

/// The MIME type a caller is told for the format: the Ogg family maps to
/// `application/ogg`, the plain MP3 family to `audio/mpeg`, everything else
/// to `application/octet-stream`.
pub open spec fn spec_mime(f: EncodingFormat) -> Seq<char> {
    if spec_is_ogg_vorbis(f) {
        "application/ogg"@
    } else if spec_is_mp3(f) {
        "audio/mpeg"@
    } else {
        "application/octet-stream"@
    }
}

pub fn mime_for_format(f: EncodingFormat) -> (r: String)
    ensures
        r@ == spec_mime(f),
{
    match f {
        EncodingFormat::OggVorbis96 | EncodingFormat::OggVorbis160
        | EncodingFormat::OggVorbis320 => "application/ogg".to_owned(),
        EncodingFormat::Mp3256 | EncodingFormat::Mp3320 | EncodingFormat::Mp3160
        | EncodingFormat::Mp396 => "audio/mpeg".to_owned(),
        _ => "application/octet-stream".to_owned(),
    }
}

/// Mapping from offered encoding formats to the remote file that carries
/// each of them, produced externally per track.
///
/// Held as a list of pairs with unique formats; all contracts speak of the
/// induced map, so nothing observable depends on the order of the pairs.
pub struct AvailableEncodings {
    entries: Vec<(EncodingFormat, FileId)>,
}

impl AvailableEncodings {
    /// The list of pairs underlying the map.
    pub closed spec fn entries_seq(&self) -> Seq<(EncodingFormat, FileId)> {
        self.entries@
    }

    /// Unique formats: the induced map is well defined.
    pub open spec fn wf(&self) -> bool {
        forall|i: int, j: int|
            0 <= i < j < self.entries_seq().len() ==> #[trigger] self.entries_seq()[i].0
                != #[trigger] self.entries_seq()[j].0
    }

    /// The mapping the pair list stands for.
    pub open spec fn view(&self) -> Map<EncodingFormat, FileId> {
        Map::new(
            |f: EncodingFormat| exists|i: int|
                0 <= i < self.entries_seq().len() && (#[trigger] self.entries_seq()[i]).0 == f,
            |f: EncodingFormat| {
                let i = choose|i: int|
                    0 <= i < self.entries_seq().len() && (#[trigger] self.entries_seq()[i]).0
                        == f;
                self.entries_seq()[i].1
            },
        )
    }

    pub fn new() -> (r: AvailableEncodings)
        ensures
            r.wf(),
            r@ == Map::<EncodingFormat, FileId>::empty(),
            r.entries_seq().len() == 0,
    {
        let r = AvailableEncodings { entries: Vec::new() };
        proof {
            assert(r@ =~= Map::<EncodingFormat, FileId>::empty());
        }
        r
    }

    /// Record that `format` is offered by remote file `file`; an already
    /// recorded format keeps its first file.
    pub fn add(&mut self, format: EncodingFormat, file: FileId)
        requires
            old(self).wf(),
        ensures
            final(self).wf(),
            final(self)@ == if old(self)@.contains_key(format) {
                old(self)@
            } else {
                old(self)@.insert(format, file)
            },
    {
        let present = self.get(&format).is_some();
        if !present {
            let ghost pre = self.entries@;
            self.entries.push((format, file));
            proof {
                assert forall|i: int, j: int|
                    0 <= i < j < self.entries_seq().len() implies #[trigger] self.entries_seq()[i].0
                    != #[trigger] self.entries_seq()[j].0 by {
                    if j == pre.len() {
                        assert(!old(self)@.contains_key(format));
                        assert(self.entries_seq()[i] == pre[i]);
                    }
                }
                assert(final(self)@ =~= old(self)@.insert(format, file)) by {
                    assert forall|f: EncodingFormat| #[trigger]
                        final(self)@.contains_key(f) implies old(self)@.insert(
                        format,
                        file,
                    ).contains_key(f) && final(self)@[f] == old(self)@.insert(format, file)[f] by {
                        let i = choose|i: int|
                            0 <= i < self.entries_seq().len()
                                && (#[trigger] self.entries_seq()[i]).0 == f;
                        if i < pre.len() {
                            assert(pre[i].0 == f);
                            assert(old(self)@.contains_key(f));
                            lemma_unique_value(*self, f, i);
                            let i0 = choose|i0: int|
                                0 <= i0 < pre.len() && (#[trigger] pre[i0]).0 == f;
                            assert(self.entries_seq()[i0] == pre[i0]);
                            lemma_unique_value(*self, f, i0);
                        } else {
                            assert(self.entries_seq()[i].0 == format);
                            lemma_unique_value(*self, f, i);
                        }
                    }
                    assert forall|f: EncodingFormat| #[trigger]
                        old(self)@.insert(format, file).contains_key(f)
                        implies final(self)@.contains_key(f) by {
                        if f == format {
                            assert(self.entries_seq()[pre.len() as int].0 == format);
                        } else {
                            let i = choose|i: int|
                                0 <= i < pre.len() && (#[trigger] pre[i]).0 == f;
                            assert(self.entries_seq()[i] == pre[i]);
                        }
                    }
                }
            }
        } else {
            proof {
                let i = choose|i: int|
                    0 <= i < self.entries_seq().len() && (#[trigger] self.entries_seq()[i]).0
                        == format;
                assert(self@.contains_key(format));
            }
        }
    }

    /// The remote file recorded for `format`, if the format is offered.
    pub fn get(&self, format: &EncodingFormat) -> (r: Option<FileId>)
        requires
            self.wf(),
        ensures
            r == if self@.contains_key(*format) {
                Some(self@[*format])
            } else {
                Option::<FileId>::None
            },
    {
        let n = self.entries.len();
        let mut i: usize = 0;
        while i < n
            invariant
                n == self.entries_seq().len(),
                0 <= i <= n,
                self.wf(),
                forall|j: int| 0 <= j < i ==> (#[trigger] self.entries_seq()[j]).0 != *format,
            decreases n - i,
        {
            if self.entries[i].0 == *format {
                proof {
                    assert(self@.contains_key(*format));
                    lemma_unique_value(*self, *format, i as int);
                }
                return Some(self.entries[i].1);
            }
            i += 1;
        }
        proof {
            if self@.contains_key(*format) {
                let j = choose|j: int|
                    0 <= j < self.entries_seq().len() && (#[trigger] self.entries_seq()[j]).0
                        == *format;
                assert(self.entries_seq()[j].0 != *format);
            }
        }
        None
    }
}

/// With unique formats, any pair whose format is `f` carries the map's
/// value for `f`.
proof fn lemma_unique_value(enc: AvailableEncodings, f: EncodingFormat, i: int)
    requires
        enc.wf(),
        0 <= i < enc.entries_seq().len(),
        enc.entries_seq()[i].0 == f,
    ensures
        enc@.contains_key(f),
        enc@[f] == enc.entries_seq()[i].1,
{
    let j = choose|j: int|
        0 <= j < enc.entries_seq().len() && (#[trigger] enc.entries_seq()[j]).0 == f;
    if i != j {
        if i < j {
            assert(enc.entries_seq()[i].0 != enc.entries_seq()[j].0);
        } else {
            assert(enc.entries_seq()[j].0 != enc.entries_seq()[i].0);
        }
    }
}

/// The fixed descending-preference order of the selector.
pub open spec fn spec_preference() -> Seq<EncodingFormat> {
    seq![
        EncodingFormat::Mp3320,
        EncodingFormat::OggVorbis320,
        EncodingFormat::Mp3256,
        EncodingFormat::Mp3160,
        EncodingFormat::OggVorbis160,
        EncodingFormat::Mp396,
        EncodingFormat::OggVorbis96,
    ]
}

/// What the selector returns: the first format of the preference order that
/// the map offers, with its file; a function of the map alone.
pub open spec fn spec_select(m: Map<EncodingFormat, FileId>) -> Option<(EncodingFormat, FileId)>
{
    spec_select_from(m, spec_preference())
}

pub open spec fn spec_select_from(
    m: Map<EncodingFormat, FileId>,
    prefs: Seq<EncodingFormat>,
) -> Option<(EncodingFormat, FileId)>
    decreases prefs.len(),
{
    if prefs.len() == 0 {
        None
    } else if m.contains_key(prefs[0]) {
        Some((prefs[0], m[prefs[0]]))
    } else {
        spec_select_from(m, prefs.skip(1))
    }
}

/// Format Selector: the first format of the fixed preference order that is
/// offered, or `UnsupportedFormat` when none is.
///
/// The result is a function of the offered mapping alone, so it cannot
/// depend on the order in which the encodings were recorded.
pub fn select_format(files: &AvailableEncodings) -> (r: Result<
    (EncodingFormat, FileId),
    AcquireError,
>)
    requires
        files.wf(),
    ensures
        r matches Ok(p) ==> spec_select(files@) == Some(p),
        r matches Err(e) ==> spec_select(files@) == Option::<(EncodingFormat, FileId)>::None
            && e == AcquireError::UnsupportedFormat,
{
    proof {
        reveal_with_fuel(spec_select_from, 8);
    }
    if let Some(file) = files.get(&EncodingFormat::Mp3320) {
        return Ok((EncodingFormat::Mp3320, file));
    }
    if let Some(file) = files.get(&EncodingFormat::OggVorbis320) {
        return Ok((EncodingFormat::OggVorbis320, file));
    }
    if let Some(file) = files.get(&EncodingFormat::Mp3256) {
        return Ok((EncodingFormat::Mp3256, file));
    }
    if let Some(file) = files.get(&EncodingFormat::Mp3160) {
        return Ok((EncodingFormat::Mp3160, file));
    }
    if let Some(file) = files.get(&EncodingFormat::OggVorbis160) {
        return Ok((EncodingFormat::OggVorbis160, file));
    }
    if let Some(file) = files.get(&EncodingFormat::Mp396) {
        return Ok((EncodingFormat::Mp396, file));
    }
    if let Some(file) = files.get(&EncodingFormat::OggVorbis96) {
        return Ok((EncodingFormat::OggVorbis96, file));
    }
    Err(AcquireError::UnsupportedFormat)
}

/// The selector's result is invariant under permutation of the order in
/// which the encodings were recorded: two well-formed encoding tables whose
/// pair lists hold the same pairs, in whatever order, induce the same map
/// and therefore the same selection.
pub proof fn lemma_select_format_order_invariant(a: AvailableEncodings, b: AvailableEncodings)
    requires
        a.wf(),
        b.wf(),
        a.entries_seq().to_multiset() == b.entries_seq().to_multiset(),
    ensures
        a@ == b@,
        spec_select(a@) == spec_select(b@),
{
    lemma_permutation_same_map(a, b);
    lemma_permutation_same_map(b, a);
    assert(a@ =~= b@);
}

/// One direction of the map equality behind
/// [`lemma_select_format_order_invariant`].
proof fn lemma_permutation_same_map(a: AvailableEncodings, b: AvailableEncodings)
    requires
        a.wf(),
        b.wf(),
        a.entries_seq().to_multiset() == b.entries_seq().to_multiset(),
    ensures
        forall|f: EncodingFormat| #[trigger]
            a@.contains_key(f) ==> b@.contains_key(f) && a@[f] == b@[f],
{
    assert forall|f: EncodingFormat| #[trigger]
        a@.contains_key(f) implies b@.contains_key(f) && a@[f] == b@[f] by {
        let i = choose|i: int|
            0 <= i < a.entries_seq().len() && (#[trigger] a.entries_seq()[i]).0 == f;
        let pair = a.entries_seq()[i];
        a.entries_seq().to_multiset_ensures();
        b.entries_seq().to_multiset_ensures();
        assert(a.entries_seq().to_multiset().contains(pair));
        assert(b.entries_seq().contains(pair));
        let j = choose|j: int| 0 <= j < b.entries_seq().len() && b.entries_seq()[j] == pair;
        lemma_unique_value(b, f, j);
        lemma_unique_value(a, f, i);
    }
}

} // verus!
