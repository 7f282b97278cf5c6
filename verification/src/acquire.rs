//! Decisions of the remote stream acquirer.
//!
//! Resolving a track id to a stream alternates network work — fetching
//! metadata, probing alternatives, opening the content handle, requesting
//! a decryption key — with decisions. The network work is the embedding
//! program's; every decision is here: what to do with a resolved item,
//! which encoding to use ([`crate::encoding::select_format`]), and how to
//! window the fetched stream into an [`OpenedTrack`].

use vstd::prelude::*;
use crate::encoding::{spec_is_ogg_vorbis, AvailableEncodings, EncodingFormat};
use crate::errors::AcquireError;
use crate::ids::TrackId;
use crate::stream::SeekRead;
use crate::subfile::Subfile;
use crate::track::{OpenedTrack, TrackModel};

verus! {

/// Number of leading bytes to skip in an Ogg Vorbis container: the remote
/// store prepends one non-standard packet of custom metadata that players
/// may balk at, so the logical window starts after it.
pub const OGG_HEADER_SKIP: u64 = 0xa7;

/// What a metadata resolution says about one track.
pub struct AudioItemInfo {
    /// Whether the item itself is marked available.
    pub available: bool,
    /// The encodings offered for the item.
    pub files: AvailableEncodings,
    /// Alternative ids carried by the item, if any.
    pub alternatives: Option<Vec<TrackId>>,
}

impl AudioItemInfo {
    pub open spec fn wf(&self) -> bool {
        self.files.wf()
    }
}

/// What to do next with a resolved item.
pub enum AcquireDecision {
    /// The item is available: choose an encoding from these offers.
    Proceed(AvailableEncodings),
    /// The item is unavailable but carries alternatives: probe them all
    /// concurrently and take the first that resolves as available.
    ProbeAlternatives(Vec<TrackId>),
    /// The item is unavailable and nothing is left to try.
    Fail(AcquireError),
}

/// The availability decision of the acquirer: an unavailable item is
/// retried through its alternatives when it has any and is otherwise
/// reported unavailable; an available item goes on to format selection.
pub fn plan_acquisition(item: AudioItemInfo) -> (r: AcquireDecision)
    requires
        item.wf(),
    ensures
        match r {
            AcquireDecision::Proceed(files) => {
                &&& item.available
                &&& files == item.files
            },
            AcquireDecision::ProbeAlternatives(alts) => {
                &&& !item.available
                &&& item.alternatives matches Some(a) && alts == a && a@.len() > 0
            },
            AcquireDecision::Fail(e) => {
                &&& !item.available
                &&& e == AcquireError::Unavailable
                &&& (item.alternatives matches Some(a) ==> a@.len() == 0)
            },
        },
{
    if item.available {
        AcquireDecision::Proceed(item.files)
    } else {
        match item.alternatives {
            Some(alts) => {
                if alts.len() > 0 {
                    AcquireDecision::ProbeAlternatives(alts)
                } else {
                    AcquireDecision::Fail(AcquireError::Unavailable)
                }
            },
            None => AcquireDecision::Fail(AcquireError::Unavailable),
        }
    }
}

/// The fixed container-header skip for the chosen format: Ogg Vorbis
/// containers start their logical window after the prepended metadata
/// packet, every other container at byte zero.
pub open spec fn spec_header_skip(format: EncodingFormat) -> int {
    if spec_is_ogg_vorbis(format) {
        0xa7
    } else {
        0
    }
}

pub fn header_skip_offset(format: EncodingFormat) -> (r: u64)
    ensures
        r == spec_header_skip(format),
{
    if format.is_ogg_vorbis() {
        OGG_HEADER_SKIP
    } else {
        0
    }
}

/// Window the fetched, decryption-wrapped stream for the chosen format
/// and hand it over as a freshly opened track: the window starts after
/// the container-header skip, the recorded length is the stream's total
/// length, and the first caller holds the one reference.
pub fn assemble_opened_track<S: SeekRead>(
    stream: S,
    total_len: u64,
    format: EncodingFormat,
) -> (r: Result<OpenedTrack<S>, AcquireError>)
    requires
        stream.inv(),
        stream.data().len() == total_len,
    ensures
        r matches Ok(t) ==> {
            &&& t.wf()
            &&& t.model() == (TrackModel {
                refs: 1u16,
                length: total_len,
                format: format,
                data: stream.data(),
                abs_pos: spec_header_skip(format) as nat,
                offset: spec_header_skip(format) as u64,
            })
        },
        r.is_ok(),
{
    let offset = header_skip_offset(format);
    match Subfile::new(stream, offset, total_len) {
        Ok(file) => Ok(OpenedTrack::new(file, format)),
        Err(_) => Err(AcquireError::IoError),
    }
}

} // verus!
