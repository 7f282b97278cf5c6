use track_session::acquire::assemble_opened_track;
use track_session::encoding::EncodingFormat;
use track_session::errors::{AcquireError, TrackError};
use track_session::ids::TrackId;
use track_session::registry::TrackLoader;
use track_session::stream::MemStream;
use track_session::track::OpenedTrack;

fn bytes(n: usize) -> Vec<u8> {
    (0..n).map(|i| (i % 251) as u8).collect()
}

fn acquired(n: usize, format: EncodingFormat) -> OpenedTrack<MemStream> {
    assemble_opened_track(MemStream::new(bytes(n)), n as u64, format).unwrap()
}

#[test]
fn open_inserts_with_one_reference_and_returns_the_record() {
    let mut loader: TrackLoader<MemStream> = TrackLoader::new();
    let id = TrackId::track(7);
    let r = loader.open(id, Ok(acquired(5000, EncodingFormat::Mp3320)));
    assert_eq!(r, Ok((5000, EncodingFormat::Mp3320)));
    assert!(loader.get_opened(&id).is_some());
}

#[test]
fn open_surfaces_a_failed_acquisition_as_load_failed() {
    let mut loader: TrackLoader<MemStream> = TrackLoader::new();
    let id = TrackId::track(7);
    assert_eq!(
        loader.open(id, Err(AcquireError::MetadataError)),
        Err(TrackError::LoadFailed)
    );
    assert_eq!(
        loader.open(id, Err(AcquireError::Unavailable)),
        Err(TrackError::LoadFailed)
    );
    assert!(loader.get_opened(&id).is_none());
}

#[test]
fn second_open_hits_the_cache_and_shares_the_entry() {
    // Two concurrent opens of an absent id, serialized by the registry's
    // lock: the first misses and completes the acquisition, the second
    // finds the entry resident. One acquisition, identical results, and a
    // reference count of two (so one close keeps the entry alive).
    let mut loader: TrackLoader<MemStream> = TrackLoader::new();
    let id = TrackId::track(42);

    assert!(loader.open_cached(&id).is_none());
    let first = loader.open(id, Ok(acquired(9000, EncodingFormat::OggVorbis160))).unwrap();

    let second = loader.open_cached(&id).expect("resident after the first open");
    assert_eq!(first, second);
    assert_eq!(first, (9000, EncodingFormat::OggVorbis160));

    assert_eq!(loader.close(&id), Ok(()));
    assert!(loader.get_opened(&id).is_some());
    assert_eq!(loader.close(&id), Ok(()));
    assert!(loader.get_opened(&id).is_none());
}

#[test]
fn open_cached_returns_the_values_recorded_at_first_acquisition() {
    let mut loader: TrackLoader<MemStream> = TrackLoader::new();
    let id = TrackId::track(3);
    loader.open(id, Ok(acquired(1234, EncodingFormat::Mp396))).unwrap();
    for _ in 0..3 {
        assert_eq!(loader.open_cached(&id), Some((1234, EncodingFormat::Mp396)));
    }
}

#[test]
fn close_balances_each_open_and_evicts_at_zero() {
    let mut loader: TrackLoader<MemStream> = TrackLoader::new();
    let id = TrackId::track(1);
    loader.open(id, Ok(acquired(100, EncodingFormat::Mp3320))).unwrap();
    loader.open_cached(&id).unwrap();
    loader.open_cached(&id).unwrap();

    // Three references: the first two closes keep the entry accessible.
    assert_eq!(loader.close(&id), Ok(()));
    assert!(loader.get_opened(&id).is_some());
    assert_eq!(loader.close(&id), Ok(()));
    assert!(loader.get_opened(&id).is_some());
    // The third close brings the count to zero and removes the entry.
    assert_eq!(loader.close(&id), Ok(()));
    assert!(loader.get_opened(&id).is_none());
}

#[test]
fn closing_twice_reports_not_open() {
    let mut loader: TrackLoader<MemStream> = TrackLoader::new();
    let id = TrackId::track(9);
    loader.open(id, Ok(acquired(100, EncodingFormat::Mp3320))).unwrap();
    assert_eq!(loader.close(&id), Ok(()));
    assert_eq!(loader.close(&id), Err(TrackError::NotOpen));
}

#[test]
fn operations_on_an_absent_id_report_not_open() {
    let mut loader: TrackLoader<MemStream> = TrackLoader::new();
    let id = TrackId::track(11);
    assert_eq!(loader.close(&id), Err(TrackError::NotOpen));
    assert_eq!(loader.seek(&id, 0), Err(TrackError::NotOpen));
    assert!(loader.get_opened(&id).is_none());
    assert!(loader.get_opened_mut(&id).is_none());
    assert!(loader.open_cached(&id).is_none());
}

#[test]
fn registry_entries_are_independent() {
    let mut loader: TrackLoader<MemStream> = TrackLoader::new();
    let a = TrackId::track(1);
    let b = TrackId::track(2);
    loader.open(a, Ok(acquired(100, EncodingFormat::Mp3320))).unwrap();
    loader.open(b, Ok(acquired(200, EncodingFormat::OggVorbis96))).unwrap();

    assert_eq!(loader.close(&a), Ok(()));
    assert!(loader.get_opened(&a).is_none());
    assert_eq!(loader.open_cached(&b), Some((200, EncodingFormat::OggVorbis96)));
    assert_eq!(loader.close(&b), Ok(()));
    assert_eq!(loader.close(&b), Ok(()));
    assert!(loader.get_opened(&b).is_none());
}

#[test]
fn seek_forwards_to_the_entry_and_reads_follow() {
    let data = bytes(1000);
    let mut loader: TrackLoader<MemStream> = TrackLoader::new();
    let id = TrackId::track(5);
    loader.open(id, Ok(acquired(1000, EncodingFormat::Mp3320))).unwrap();

    assert_eq!(loader.seek(&id, 123), Ok(123));
    let t = loader.get_opened_mut(&id).unwrap();
    let chunk = t.read(4).unwrap();
    assert_eq!(chunk, data[123..127].to_vec());
    assert_eq!(t.len(), 1000);
    assert_eq!(t.format(), EncodingFormat::Mp3320);
}

#[test]
fn ogg_windows_skip_the_leading_header_packet() {
    let data = bytes(1000);
    let mut loader: TrackLoader<MemStream> = TrackLoader::new();
    let id = TrackId::track(6);
    loader.open(id, Ok(acquired(1000, EncodingFormat::OggVorbis320))).unwrap();

    // Position 0 of an Ogg Vorbis track is absolute position 0xa7.
    assert_eq!(loader.seek(&id, 0), Ok(0));
    let t = loader.get_opened_mut(&id).unwrap();
    let chunk = t.read(4).unwrap();
    assert_eq!(chunk, data[0xa7..0xa7 + 4].to_vec());
}
