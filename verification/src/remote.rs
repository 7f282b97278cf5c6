//! The remote content stream: the library's stream capability backed by a
//! fetched, transparently decrypted remote file.
//!
//! The bytes of such a file come over the network, so nothing inside the
//! process can say what they are — only that one fetched handle serves
//! one fixed sequence of them. `remote_bytes` and `remote_cursor` name
//! that sequence and the position in it; the trusted wrappers below
//! state, against the fetcher's source, how reading and repositioning
//! move through the sequence, and everything downstream (windowing,
//! registry, read sessions) is verified against those statements alone.

use vstd::prelude::*;
use crate::errors::StreamError;
use crate::stream::{SeekFrom, SeekRead};

verus! {

#[verifier::external_type_specification]
#[verifier::external_body]
pub struct ExAudioKey(librespot_core::audio_key::AudioKey);

#[verifier::external_type_specification]
#[verifier::external_body]
pub struct ExAudioFile(librespot_audio::AudioFile);

/// A fetched remote file behind its decryption layer: the stream type a
/// production registry holds its opened tracks in. Opaque to the
/// verifier, which sees it only through `remote_bytes` and
/// `remote_cursor`.
#[verifier::external_body]
pub struct RemoteStream {
    inner: librespot_audio::AudioDecrypt<librespot_audio::AudioFile>,
}

/// The decrypted byte sequence a fetched handle serves.
pub uninterp spec fn remote_bytes(s: &RemoteStream) -> Seq<u8>;

/// The cursor of a fetched handle: the index of the next byte a read
/// would return.
pub uninterp spec fn remote_cursor(s: &RemoteStream) -> nat;

/// Relies on librespot_audio::AudioDecrypt::new: wraps the fetched file
/// with decryption under `key`, or passes the bytes through unaltered
/// when no key was obtained. The wrap does not touch the file's
/// position, so nothing is claimed of the cursor; the windowing layer
/// seeks to its start before anything is read.
#[verifier::external_body]
fn raw_wrap(
    key: Option<librespot_core::audio_key::AudioKey>,
    file: librespot_audio::AudioFile,
) -> (r: RemoteStream) {
    RemoteStream { inner: librespot_audio::AudioDecrypt::new(key, file) }
}

/// Relies on the std::io::Read impls of librespot_audio::AudioDecrypt
/// and librespot_audio::AudioFile: a read returns the next bytes of the
/// decrypted file at the cursor, advances the cursor by what it
/// returned, returns an empty buffer exactly when nothing was asked for
/// or the cursor is at or past the end, and fails only when the transfer
/// fails, leaving the cursor in place.
#[verifier::external_body]
fn raw_read(s: &mut RemoteStream, n: usize) -> (r: Result<Vec<u8>, StreamError>)
    ensures
        remote_bytes(final(s)) == remote_bytes(old(s)),
        match r {
            Ok(bytes) => {
                &&& bytes@.len() <= n
                &&& remote_cursor(final(s)) == remote_cursor(old(s)) + bytes@.len()
                &&& (bytes@.len() == 0 <==> (n == 0 || remote_cursor(old(s)) >= remote_bytes(
                    old(s),
                ).len()))
                &&& (bytes@.len() > 0 ==> remote_cursor(old(s)) + bytes@.len() <= remote_bytes(
                    old(s),
                ).len() && bytes@ == remote_bytes(old(s)).subrange(
                    remote_cursor(old(s)) as int,
                    remote_cursor(old(s)) + bytes@.len() as int,
                ))
            },
            Err(_) => remote_cursor(final(s)) == remote_cursor(old(s)),
        },
{
    let mut buf: Vec<u8> = vec![0u8; n];
    match std::io::Read::read(&mut s.inner, &mut buf) {
        Ok(k) => {
            buf.truncate(k);
            Ok(buf)
        },
        Err(_) => Err(StreamError::Io),
    }
}

/// Relies on the std::io::Seek impls of librespot_audio::AudioDecrypt
/// and librespot_audio::AudioFile: a start-anchored seek moves the
/// cursor to its target and succeeds whenever the target fits in a
/// signed 64-bit offset; a zero-length relative seek reports the cursor
/// without moving it (the fetcher returns early on an unchanged
/// position); an end-anchored seek leaves the cursor at whatever
/// position it returns, and no more is claimed of it — the fetcher
/// resolves the end itself, and not always as the recorded length. A
/// failed seek leaves the cursor in place.
#[verifier::external_body]
fn raw_seek(s: &mut RemoteStream, pos: SeekFrom) -> (r: Result<u64, StreamError>)
    requires
        pos matches SeekFrom::Current(d) ==> d == 0i64,
    ensures
        remote_bytes(final(s)) == remote_bytes(old(s)),
        r is Err ==> remote_cursor(final(s)) == remote_cursor(old(s)),
        match pos {
            SeekFrom::Start(p) => {
                &&& (r matches Ok(q) ==> q == p && remote_cursor(final(s)) == p)
                &&& (p <= i64::MAX ==> r is Ok)
            },
            SeekFrom::Current(_) => r matches Ok(q) && q == remote_cursor(old(s))
                && remote_cursor(final(s)) == remote_cursor(old(s)),
            SeekFrom::End(_) => r matches Ok(q) ==> remote_cursor(final(s)) == q,
        },
{
    let target = match pos {
        SeekFrom::Start(p) => std::io::SeekFrom::Start(p),
        SeekFrom::End(e) => std::io::SeekFrom::End(e),
        SeekFrom::Current(d) => std::io::SeekFrom::Current(d),
    };
    match std::io::Seek::seek(&mut s.inner, target) {
        Ok(p) => Ok(p),
        Err(_) => Err(StreamError::InvalidSeek),
    }
}

impl RemoteStream {
    /// Wrap a fetched file, decrypting under `key` when one was obtained;
    /// proceeding without a key is expected for some content, not an
    /// error. The cursor is wherever the fetched file left it; the
    /// windowing layer seeks before reading.
    pub fn new(
        key: Option<librespot_core::audio_key::AudioKey>,
        file: librespot_audio::AudioFile,
    ) -> (r: RemoteStream)
        ensures
            r.inv(),
    {
        raw_wrap(key, file)
    }
}

impl SeekRead for RemoteStream {
    closed spec fn data(&self) -> Seq<u8> {
        remote_bytes(self)
    }

    closed spec fn pos(&self) -> nat {
        remote_cursor(self)
    }

    closed spec fn inv(&self) -> bool {
        true
    }

    fn read(&mut self, n: usize) -> (r: Result<Vec<u8>, StreamError>) {
        raw_read(self, n)
    }

    fn seek(&mut self, pos: SeekFrom) -> (r: Result<u64, StreamError>) {
        raw_seek(self, pos)
    }
}

} // verus!
