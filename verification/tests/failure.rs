use track_session::acquire::assemble_opened_track;
use track_session::encoding::EncodingFormat;
use track_session::errors::{StreamError, TrackError};
use track_session::ids::TrackId;
use track_session::registry::TrackLoader;
use track_session::session::{ReadSession, ReadStep};
use track_session::stream::{BrokenStream, SeekFrom, SeekRead};

#[test]
fn a_failing_read_yields_one_io_error_item() {
    let id = TrackId::track(1);
    let mut loader: TrackLoader<BrokenStream> = TrackLoader::new();
    let t = assemble_opened_track(BrokenStream::new(), 0, EncodingFormat::Mp3320).unwrap();
    loader.open(id, Ok(t)).unwrap();

    let mut session = ReadSession::new(id, 0, 500, 200);
    assert_eq!(session.start(&mut loader), None);
    assert_eq!(session.step(&mut loader), ReadStep::Failed(TrackError::IoError));
    assert!(session.is_finished());
}

#[test]
fn a_broken_stream_still_repositions() {
    let mut s = BrokenStream::new();
    assert_eq!(s.seek(SeekFrom::Start(40)), Ok(40));
    assert_eq!(s.seek(SeekFrom::Current(-40)), Ok(0));
    assert_eq!(s.seek(SeekFrom::Current(-1)), Err(StreamError::InvalidSeek));
    assert_eq!(s.read(16), Err(StreamError::Io));
}
