use track_session::acquire::{
    assemble_opened_track, header_skip_offset, plan_acquisition, AcquireDecision, AudioItemInfo,
    OGG_HEADER_SKIP,
};
use track_session::encoding::{AvailableEncodings, EncodingFormat};
use track_session::errors::AcquireError;
use track_session::ids::{FileId, TrackId};
use track_session::stream::MemStream;

fn offers(formats: &[EncodingFormat]) -> AvailableEncodings {
    let mut enc = AvailableEncodings::new();
    for (i, f) in formats.iter().enumerate() {
        enc.add(*f, FileId { raw: [i as u8; 20] });
    }
    enc
}

#[test]
fn an_available_item_proceeds_with_its_offers() {
    let item = AudioItemInfo {
        available: true,
        files: offers(&[EncodingFormat::Mp3320]),
        alternatives: None,
    };
    match plan_acquisition(item) {
        AcquireDecision::Proceed(files) => {
            assert_eq!(files.get(&EncodingFormat::Mp3320), Some(FileId { raw: [0; 20] }));
        }
        _ => panic!("an available item must proceed"),
    }
}

#[test]
fn an_unavailable_item_with_alternatives_probes_them() {
    let alts = vec![TrackId::track(8), TrackId::track(9)];
    let item = AudioItemInfo {
        available: false,
        files: offers(&[EncodingFormat::Mp3320]),
        alternatives: Some(alts.clone()),
    };
    match plan_acquisition(item) {
        AcquireDecision::ProbeAlternatives(probed) => assert_eq!(probed, alts),
        _ => panic!("alternatives must be probed"),
    }
}

#[test]
fn an_unavailable_item_without_alternatives_is_unavailable() {
    let bare = AudioItemInfo {
        available: false,
        files: offers(&[]),
        alternatives: None,
    };
    match plan_acquisition(bare) {
        AcquireDecision::Fail(e) => assert_eq!(e, AcquireError::Unavailable),
        _ => panic!("nothing left to try"),
    }

    let empty_alts = AudioItemInfo {
        available: false,
        files: offers(&[]),
        alternatives: Some(Vec::new()),
    };
    match plan_acquisition(empty_alts) {
        AcquireDecision::Fail(e) => assert_eq!(e, AcquireError::Unavailable),
        _ => panic!("an empty alternative list leaves nothing to try"),
    }
}

#[test]
fn header_skip_applies_to_ogg_vorbis_only() {
    assert_eq!(OGG_HEADER_SKIP, 0xa7);
    assert_eq!(header_skip_offset(EncodingFormat::OggVorbis96), 0xa7);
    assert_eq!(header_skip_offset(EncodingFormat::OggVorbis160), 0xa7);
    assert_eq!(header_skip_offset(EncodingFormat::OggVorbis320), 0xa7);
    assert_eq!(header_skip_offset(EncodingFormat::Mp3320), 0);
    assert_eq!(header_skip_offset(EncodingFormat::Flac), 0);
}

#[test]
fn an_assembled_track_records_length_and_format() {
    let data: Vec<u8> = (0..500u32).map(|i| (i % 251) as u8).collect();
    let t = assemble_opened_track(MemStream::new(data), 500, EncodingFormat::OggVorbis96)
        .unwrap();
    assert_eq!(t.len(), 500);
    assert_eq!(t.format(), EncodingFormat::OggVorbis96);
}
