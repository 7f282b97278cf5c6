//! Identifiers for tracks and remote files.

use vstd::prelude::*;

verus! {

/// Discriminant carried by a [`TrackId`]; only the `Track` variant is a
/// valid input to the session core.
#[derive(Clone, Copy, Debug, PartialEq, Eq, Hash, Structural)]
pub enum ItemType {
    Album,
    Artist,
    Episode,
    Playlist,
    Show,
    Track,
    Local,
    Unknown,
}

/// Opaque, comparable key naming one logical remote audio track.
#[derive(Clone, Copy, Debug, PartialEq, Eq, Hash, Structural)]
pub struct TrackId {
    pub id: u128,
    pub item_type: ItemType,
}

impl TrackId {
    /// A track-typed id over a raw numeric identifier.
    pub fn track(id: u128) -> (r: TrackId)
        ensures
            r == (TrackId { id, item_type: ItemType::Track }),
    {
        TrackId { id, item_type: ItemType::Track }
    }

    /// Whether this id names a track, the only kind the core accepts.
    pub fn is_track(&self) -> (r: bool)
        ensures
            r == (self.item_type == ItemType::Track),
    {
        match self.item_type {
            ItemType::Track => true,
            _ => false,
        }
    }
}

/// Opaque identifier of one concrete remote file holding an encoded track.
///
/// Equality of two ids means equality of the raw bytes; verified code only
/// passes ids through, so the derived comparison is for callers and tests.
#[derive(Clone, Copy, Debug, PartialEq, Eq, Hash)]
pub struct FileId {
    pub raw: [u8; 20],
}

} // verus!
