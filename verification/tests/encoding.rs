use track_session::encoding::{
    mime_for_format, select_format, stream_data_rate, AvailableEncodings, EncodingFormat,
};
use track_session::errors::AcquireError;
use track_session::ids::FileId;

fn fid(b: u8) -> FileId {
    FileId { raw: [b; 20] }
}

#[test]
fn selector_prefers_mp3_320_over_everything() {
    let mut enc = AvailableEncodings::new();
    enc.add(EncodingFormat::OggVorbis96, fid(1));
    enc.add(EncodingFormat::OggVorbis320, fid(2));
    enc.add(EncodingFormat::Mp3320, fid(3));
    enc.add(EncodingFormat::Mp3256, fid(4));
    assert_eq!(select_format(&enc), Ok((EncodingFormat::Mp3320, fid(3))));
}

#[test]
fn selector_walks_the_preference_order() {
    let mut enc = AvailableEncodings::new();
    enc.add(EncodingFormat::OggVorbis160, fid(5));
    enc.add(EncodingFormat::Mp396, fid(6));
    assert_eq!(select_format(&enc), Ok((EncodingFormat::OggVorbis160, fid(5))));

    let mut enc = AvailableEncodings::new();
    enc.add(EncodingFormat::OggVorbis96, fid(7));
    assert_eq!(select_format(&enc), Ok((EncodingFormat::OggVorbis96, fid(7))));
}

#[test]
fn selector_rejects_unsupported_offers() {
    let mut enc = AvailableEncodings::new();
    enc.add(EncodingFormat::Flac, fid(8));
    enc.add(EncodingFormat::Aac48, fid(9));
    enc.add(EncodingFormat::Mp3160Enc, fid(10));
    assert_eq!(select_format(&enc), Err(AcquireError::UnsupportedFormat));

    let empty = AvailableEncodings::new();
    assert_eq!(select_format(&empty), Err(AcquireError::UnsupportedFormat));
}

#[test]
fn selector_ignores_insertion_order() {
    let mut forward = AvailableEncodings::new();
    forward.add(EncodingFormat::OggVorbis96, fid(1));
    forward.add(EncodingFormat::Mp3256, fid(2));
    forward.add(EncodingFormat::OggVorbis320, fid(3));

    let mut backward = AvailableEncodings::new();
    backward.add(EncodingFormat::OggVorbis320, fid(3));
    backward.add(EncodingFormat::Mp3256, fid(2));
    backward.add(EncodingFormat::OggVorbis96, fid(1));

    let mut shuffled = AvailableEncodings::new();
    shuffled.add(EncodingFormat::Mp3256, fid(2));
    shuffled.add(EncodingFormat::OggVorbis96, fid(1));
    shuffled.add(EncodingFormat::OggVorbis320, fid(3));

    let expected = Ok((EncodingFormat::OggVorbis320, fid(3)));
    assert_eq!(select_format(&forward), expected);
    assert_eq!(select_format(&backward), expected);
    assert_eq!(select_format(&shuffled), expected);
}

#[test]
fn adding_a_format_twice_keeps_the_first_file() {
    let mut enc = AvailableEncodings::new();
    enc.add(EncodingFormat::Mp3320, fid(1));
    enc.add(EncodingFormat::Mp3320, fid(2));
    assert_eq!(select_format(&enc), Ok((EncodingFormat::Mp3320, fid(1))));
    assert_eq!(enc.get(&EncodingFormat::Mp3320), Some(fid(1)));
    assert_eq!(enc.get(&EncodingFormat::Flac), None);
}

#[test]
fn mime_follows_the_fixed_table() {
    assert_eq!(mime_for_format(EncodingFormat::OggVorbis96), "application/ogg");
    assert_eq!(mime_for_format(EncodingFormat::OggVorbis160), "application/ogg");
    assert_eq!(mime_for_format(EncodingFormat::OggVorbis320), "application/ogg");
    assert_eq!(mime_for_format(EncodingFormat::Mp396), "audio/mpeg");
    assert_eq!(mime_for_format(EncodingFormat::Mp3160), "audio/mpeg");
    assert_eq!(mime_for_format(EncodingFormat::Mp3256), "audio/mpeg");
    assert_eq!(mime_for_format(EncodingFormat::Mp3320), "audio/mpeg");
    assert_eq!(mime_for_format(EncodingFormat::Mp3160Enc), "application/octet-stream");
    assert_eq!(mime_for_format(EncodingFormat::Aac24), "application/octet-stream");
    assert_eq!(mime_for_format(EncodingFormat::Aac48), "application/octet-stream");
    assert_eq!(mime_for_format(EncodingFormat::Flac), "application/octet-stream");
}

#[test]
fn data_rate_follows_the_fixed_table() {
    assert_eq!(stream_data_rate(EncodingFormat::OggVorbis96), 12 * 1024);
    assert_eq!(stream_data_rate(EncodingFormat::OggVorbis160), 20 * 1024);
    assert_eq!(stream_data_rate(EncodingFormat::OggVorbis320), 40 * 1024);
    assert_eq!(stream_data_rate(EncodingFormat::Mp3256), 32 * 1024);
    assert_eq!(stream_data_rate(EncodingFormat::Mp3320), 40 * 1024);
    assert_eq!(stream_data_rate(EncodingFormat::Aac24), 3 * 1024);
    assert_eq!(stream_data_rate(EncodingFormat::Flac), 112 * 1024);
}
