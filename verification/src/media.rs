//! Media that travels as text: data URLs with a base64 payload, and the
//! fingerprint of a video.

use vstd::prelude::*;
use vstd::string::StringExecFns;
use base64::DecodeError;
use md5::{Digest, Md5};
use crate::text::{first_occurrence, split_once, starts_with};

verus! {

/// Trusted: `base64::DecodeError`, why a text is no base64. It is handed
/// on and never looked into.
#[verifier::external_type_specification]
#[verifier::external_body]
pub struct ExDecodeError(base64::DecodeError);

/// Why a piece of media could not be taken out of its text form.
#[derive(Debug, PartialEq, Eq)]
pub enum MediaError {
    /// The source is no data URL.
    UnsupportedSource,
    /// The text has no `base64,` marker, so it carries no payload.
    MissingPayload,
    /// The payload is not base64.
    InvalidBase64(DecodeError),
}

/// The marker that stands before the payload of a data URL.
pub open spec fn payload_marker() -> Seq<char> {
    "base64,"@
}

/// The scheme that a data URL starts with.
pub open spec fn data_scheme() -> Seq<char> {
    "data:"@
}

/// What an audio data URL starts with, up to and including the marker.
pub open spec fn audio_prefix() -> Seq<char> {
    "data:audio/mp3;base64,"@
}

/// The payload of a data URL: what follows the first marker, up to the next
/// marker or else to the end. `None` where the text has no marker.
pub open spec fn payload_of(url: Seq<char>) -> Option<Seq<char>> {
    match first_occurrence(url, payload_marker(), 0) {
        None => None,
        Some(at) => {
            let rest = url.skip(at + payload_marker().len());
            match first_occurrence(rest, payload_marker(), 0) {
                Some(end) => Some(rest.take(end)),
                None => Some(rest),
            }
        },
    }
}

/// The bytes that `base64::decode` reads out of a text, in the standard
/// alphabet with padding; `None` where it takes the text for no base64.
pub uninterp spec fn base64_decoded(text: Seq<char>) -> Option<Seq<u8>>;

/// The text that `base64::encode` writes for some bytes, in the standard
/// alphabet with padding.
pub uninterp spec fn base64_encoded(bytes: Seq<u8>) -> Seq<char>;

/// The MD5 digest of some bytes as `Md5::digest` computes it, written as
/// lower-case hexadecimal digits.
pub uninterp spec fn md5_hex(bytes: Seq<u8>) -> Seq<char>;

/// The longest input, in bytes, that [`audio_data_url`] takes: its base64
/// text must not outgrow the largest size of an allocation.
pub open spec fn encodable(len: nat) -> bool {
    len <= usize::MAX / 4
}

/// Trusted: `base64::decode`. Whether a text decodes, and to which bytes,
/// depends on the text alone: the result is [`base64_decoded`] of the text,
/// and an error stands for `None`.
#[verifier::external_body]
#[allow(deprecated)]
fn decode_base64(text: &str) -> (outcome: Result<Vec<u8>, DecodeError>)
    ensures
        match outcome {
            Ok(bytes) => base64_decoded(text@) == Some(bytes@),
            Err(_) => base64_decoded(text@) is None,
        },
{
    base64::decode(text)
}

/// Trusted: `base64::encode`, which panics when the length of its result
/// does not fit. The result depends on the bytes alone: it is
/// [`base64_encoded`] of them.
#[verifier::external_body]
#[allow(deprecated)]
fn encode_base64(bytes: &[u8]) -> (text: String)
    requires
        encodable(bytes@.len()),
    ensures
        text@ == base64_encoded(bytes@),
{
    base64::encode(bytes)
}

/// Trusted: `Md5::digest`, formatted with `{:x}`. The result depends on the
/// bytes alone: it is [`md5_hex`] of them.
#[verifier::external_body]
fn digest_hex(bytes: &[u8]) -> (hex: String)
    ensures
        hex@ == md5_hex(bytes@),
{
    format!("{:x}", Md5::digest(bytes))
}

/// Takes the payload out of a data URL: the text between the first `base64,`
/// and the next one, or the end.
pub fn data_url_payload(url: &str) -> (found: Option<&str>)
    ensures
        match found {
            Some(payload) => payload_of(url@) == Some(payload@),
            None => payload_of(url@) is None,
        },
{
    match split_once(url, "base64,") {
        None => None,
        Some((_, rest)) => match split_once(rest, "base64,") {
            Some((piece, _)) => Some(piece),
            None => Some(rest),
        },
    }
}

/// Decodes the payload of a data URL.
///
/// Fails with [`MediaError::MissingPayload`] exactly when the text has no
/// marker, and with [`MediaError::InvalidBase64`] exactly when it has one but
/// the payload is not base64.
pub fn decode_data_url(url: &str) -> (outcome: Result<Vec<u8>, MediaError>)
    ensures
        match outcome {
            Ok(bytes) => payload_of(url@) is Some && base64_decoded(payload_of(url@).unwrap())
                == Some(bytes@),
            Err(MediaError::MissingPayload) => payload_of(url@) is None,
            Err(MediaError::InvalidBase64(_)) => payload_of(url@) is Some && base64_decoded(
                payload_of(url@).unwrap(),
            ) is None,
            Err(MediaError::UnsupportedSource) => false,
        },
{
    let payload = match data_url_payload(url) {
        Some(payload) => payload,
        None => {
            return Err(MediaError::MissingPayload);
        },
    };
    match decode_base64(payload) {
        Ok(bytes) => Ok(bytes),
        Err(error) => Err(MediaError::InvalidBase64(error)),
    }
}

/// Takes the bytes of a video out of the data URL that carries it.
///
/// Anything that does not start with `data:` is refused as an unsupported
/// source; a data URL is then decoded as [`decode_data_url`] does.
pub fn video_bytes(source: &str) -> (outcome: Result<Vec<u8>, MediaError>)
    ensures
        match outcome {
            Ok(bytes) => data_scheme().is_prefix_of(source@) && payload_of(source@) is Some
                && base64_decoded(payload_of(source@).unwrap()) == Some(bytes@),
            Err(MediaError::UnsupportedSource) => !data_scheme().is_prefix_of(source@),
            Err(MediaError::MissingPayload) => data_scheme().is_prefix_of(source@) && payload_of(
                source@,
            ) is None,
            Err(MediaError::InvalidBase64(_)) => data_scheme().is_prefix_of(source@) && payload_of(
                source@,
            ) is Some && base64_decoded(payload_of(source@).unwrap()) is None,
        },
{
    if !starts_with(source, "data:") {
        return Err(MediaError::UnsupportedSource);
    }
    decode_data_url(source)
}

/// Wraps extracted audio into a data URL.
pub fn audio_data_url(audio: &[u8]) -> (url: String)
    requires
        encodable(audio@.len()),
    ensures
        url@ == audio_prefix() + base64_encoded(audio@),
{
    let encoded = encode_base64(audio);
    String::from_str("data:audio/mp3;base64,").concat(encoded.as_str())
}

/// The fingerprint of a video that arrives as a data URL: the MD5 digest of
/// its bytes in lower-case hexadecimal digits.
pub fn calculate_md5(video: &str) -> (outcome: Result<String, MediaError>)
    ensures
        match outcome {
            Ok(hex) => payload_of(video@) is Some && base64_decoded(payload_of(video@).unwrap())
                is Some && hex@ == md5_hex(base64_decoded(payload_of(video@).unwrap()).unwrap()),
            Err(MediaError::MissingPayload) => payload_of(video@) is None,
            Err(MediaError::InvalidBase64(_)) => payload_of(video@) is Some && base64_decoded(
                payload_of(video@).unwrap(),
            ) is None,
            Err(MediaError::UnsupportedSource) => false,
        },
{
    match decode_data_url(video) {
        Ok(bytes) => Ok(digest_hex(bytes.as_slice())),
        Err(error) => Err(error),
    }
}

} // verus!
