use track_session::acquire::assemble_opened_track;
use track_session::encoding::EncodingFormat;
use track_session::errors::TrackError;
use track_session::ids::TrackId;
use track_session::registry::TrackLoader;
use track_session::session::{clamp_chunk_size, ReadSession, ReadStep};
use track_session::stream::MemStream;

fn bytes(n: usize) -> Vec<u8> {
    (0..n).map(|i| (i % 251) as u8).collect()
}

fn opened_loader(n: usize, id: TrackId) -> TrackLoader<MemStream> {
    let mut loader = TrackLoader::new();
    let t = assemble_opened_track(MemStream::new(bytes(n)), n as u64, EncodingFormat::Mp3320)
        .unwrap();
    loader.open(id, Ok(t)).unwrap();
    loader
}

fn run(
    session: &mut ReadSession,
    loader: &mut TrackLoader<MemStream>,
) -> (Vec<(Vec<u8>, bool)>, Option<TrackError>) {
    let mut chunks = Vec::new();
    if let Some(e) = session.start(loader) {
        return (chunks, Some(e));
    }
    while !session.is_finished() {
        match session.step(loader) {
            ReadStep::Chunk { data, eof } => chunks.push((data, eof)),
            ReadStep::Failed(e) => return (chunks, Some(e)),
            ReadStep::Done => break,
        }
    }
    (chunks, None)
}

#[test]
fn run_collects_the_whole_output_sequence() {
    let id = TrackId::track(8);
    let mut loader = opened_loader(10000, id);
    let mut session = ReadSession::new(id, 1000, 500, 200);
    let steps = session.run(&mut loader);
    assert!(session.is_finished());
    assert_eq!(steps.len(), 3);
    let data = bytes(10000);
    assert_eq!(
        steps[0],
        ReadStep::Chunk { data: data[1000..1200].to_vec(), eof: false }
    );
    assert_eq!(
        steps[1],
        ReadStep::Chunk { data: data[1200..1400].to_vec(), eof: false }
    );
    assert_eq!(
        steps[2],
        ReadStep::Chunk { data: data[1400..1500].to_vec(), eof: false }
    );
}

#[test]
fn run_on_an_absent_track_is_one_error_item() {
    let mut loader: TrackLoader<MemStream> = TrackLoader::new();
    let mut session = ReadSession::new(TrackId::track(9), 0, 100, 200);
    let steps = session.run(&mut loader);
    assert_eq!(steps.len(), 1);
    assert_eq!(steps[0], ReadStep::Failed(TrackError::NotOpen));
}

#[test]
fn absorb_read_does_the_chunk_arithmetic() {
    // The step a session emits for a given underlying read outcome,
    // checked on plain values with no stream behind it.
    let mut loader = opened_loader(100, TrackId::track(10));
    let mut session = ReadSession::new(TrackId::track(10), 0, 5, 200);
    assert_eq!(session.start(&mut loader), None);

    let step = session.absorb_read(Ok(vec![7, 8, 9]));
    assert_eq!(step, ReadStep::Chunk { data: vec![7, 8, 9], eof: false });
    assert!(!session.is_finished());

    let step = session.absorb_read(Ok(vec![]));
    assert_eq!(step, ReadStep::Chunk { data: vec![], eof: true });
    assert!(session.is_finished());

    let mut session = ReadSession::new(TrackId::track(10), 0, 5, 200);
    assert_eq!(session.start(&mut loader), None);
    let step = session.absorb_read(Ok(vec![1, 2, 3, 4, 5]));
    assert_eq!(
        step,
        ReadStep::Chunk { data: vec![1, 2, 3, 4, 5], eof: false }
    );
    // The limit is reached: the session ends without an eof chunk.
    assert!(session.is_finished());

    let mut session = ReadSession::new(TrackId::track(10), 0, 5, 200);
    assert_eq!(session.start(&mut loader), None);
    let step = session.absorb_read(Err(track_session::errors::StreamError::Io));
    assert_eq!(step, ReadStep::Failed(TrackError::IoError));
    assert!(session.is_finished());
}

#[test]
fn chunk_size_clamping() {
    assert_eq!(clamp_chunk_size(0), 10240);
    assert_eq!(clamp_chunk_size(50000), 10240);
    assert_eq!(clamp_chunk_size(1), 128);
    assert_eq!(clamp_chunk_size(128), 128);
    assert_eq!(clamp_chunk_size(5000), 5000);
    assert_eq!(clamp_chunk_size(10240), 10240);
    assert_eq!(clamp_chunk_size(10241), 10240);
}

#[test]
fn limited_read_emits_exact_chunks_without_eof() {
    // A 10000-byte stream read from offset 1000 with limit 500 and chunk
    // size 200 yields chunks of 200, 200 and 100 bytes. None is marked
    // eof: the session stopped at the limit, not at stream exhaustion.
    let id = TrackId::track(1);
    let mut loader = opened_loader(10000, id);
    let mut session = ReadSession::new(id, 1000, 500, 200);
    let (chunks, err) = run(&mut session, &mut loader);
    assert_eq!(err, None);
    assert_eq!(chunks.len(), 3);
    assert_eq!(chunks[0].0.len(), 200);
    assert_eq!(chunks[1].0.len(), 200);
    assert_eq!(chunks[2].0.len(), 100);
    assert_eq!(chunks[0].1, false);
    assert_eq!(chunks[1].1, false);
    assert_eq!(chunks[2].1, false);

    let data = bytes(10000);
    assert_eq!(chunks[0].0, data[1000..1200].to_vec());
    assert_eq!(chunks[1].0, data[1200..1400].to_vec());
    assert_eq!(chunks[2].0, data[1400..1500].to_vec());
}

#[test]
fn zero_limit_terminates_without_any_read() {
    let id = TrackId::track(2);
    let mut loader = opened_loader(100, id);
    let mut session = ReadSession::new(id, 0, 0, 200);
    assert_eq!(session.start(&mut loader), None);
    assert!(!session.is_finished());
    assert_eq!(session.step(&mut loader), ReadStep::Done);
    assert!(session.is_finished());
}

#[test]
fn exhaustion_is_marked_by_an_eof_chunk() {
    // Only 10 bytes remain past the offset; the limit is far larger. The
    // first chunk carries the 10 bytes, the second is the empty chunk
    // whose eof flag reports genuine exhaustion.
    let id = TrackId::track(3);
    let mut loader = opened_loader(100, id);
    let mut session = ReadSession::new(id, 90, 500, 200);
    let (chunks, err) = run(&mut session, &mut loader);
    assert_eq!(err, None);
    assert_eq!(chunks.len(), 2);
    assert_eq!(chunks[0].0.len(), 10);
    assert_eq!(chunks[0].1, false);
    assert_eq!(chunks[1].0.len(), 0);
    assert_eq!(chunks[1].1, true);
}

#[test]
fn reading_an_absent_track_yields_one_error_item() {
    let mut loader: TrackLoader<MemStream> = TrackLoader::new();
    let mut session = ReadSession::new(TrackId::track(4), 0, 100, 200);
    let (chunks, err) = run(&mut session, &mut loader);
    assert!(chunks.is_empty());
    assert_eq!(err, Some(TrackError::NotOpen));
}

#[test]
fn closing_between_chunks_stops_the_session_with_not_open() {
    let id = TrackId::track(5);
    let mut loader = opened_loader(10000, id);
    let mut session = ReadSession::new(id, 0, 1000, 200);
    assert_eq!(session.start(&mut loader), None);
    match session.step(&mut loader) {
        ReadStep::Chunk { data, eof } => {
            assert_eq!(data.len(), 200);
            assert!(!eof);
        },
        other => panic!("expected a chunk, got {:?}", other),
    }
    // The one reference is dropped between two chunks of the transfer.
    loader.close(&id).unwrap();
    assert_eq!(session.step(&mut loader), ReadStep::Failed(TrackError::NotOpen));
    assert!(session.is_finished());
}

#[test]
fn interleaved_operations_on_other_ids_do_not_disturb_a_session() {
    let a = TrackId::track(6);
    let b = TrackId::track(7);
    let mut loader = opened_loader(1000, a);
    let t = assemble_opened_track(
        MemStream::new(bytes(300)),
        300,
        EncodingFormat::OggVorbis96,
    )
    .unwrap();
    loader.open(b, Ok(t)).unwrap();

    let mut session = ReadSession::new(a, 0, 400, 200);
    assert_eq!(session.start(&mut loader), None);
    let first = match session.step(&mut loader) {
        ReadStep::Chunk { data, .. } => data,
        other => panic!("expected a chunk, got {:?}", other),
    };
    // Another caller seeks and closes the other track between chunks.
    loader.seek(&b, 250).unwrap();
    loader.close(&b).unwrap();
    let second = match session.step(&mut loader) {
        ReadStep::Chunk { data, .. } => data,
        other => panic!("expected a chunk, got {:?}", other),
    };
    let data = bytes(1000);
    assert_eq!(first, data[0..200].to_vec());
    assert_eq!(second, data[200..400].to_vec());
}
