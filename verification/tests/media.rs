use eplayer::media::{
    audio_data_url, calculate_md5, data_url_payload, decode_data_url, video_bytes, MediaError,
};

#[test]
fn payload_follows_the_marker() {
    assert_eq!(data_url_payload("data:video/mp4;base64,aGVsbG8="), Some("aGVsbG8="));
    assert_eq!(data_url_payload("base64,"), Some(""));
    assert_eq!(data_url_payload("base64,x"), Some("x"));
}

#[test]
fn payload_ends_at_the_next_marker() {
    assert_eq!(data_url_payload("a base64,aGk=base64,zzz"), Some("aGk="));
    assert_eq!(data_url_payload("base64,base64,tail"), Some(""));
}

#[test]
fn no_marker_no_payload() {
    assert_eq!(data_url_payload(""), None);
    assert_eq!(data_url_payload("data:video/mp4,plain"), None);
    assert_eq!(data_url_payload("base64"), None);
    assert_eq!(data_url_payload("BASE64,aGk="), None);
}

#[test]
fn data_url_is_decoded() {
    assert_eq!(decode_data_url("data:video/mp4;base64,aGVsbG8="), Ok(b"hello".to_vec()));
    assert_eq!(decode_data_url("data:;base64,"), Ok(Vec::new()));
    assert_eq!(decode_data_url("base64,AAEC/w=="), Ok(vec![0, 1, 2, 255]));
}

#[test]
fn text_without_marker_is_refused() {
    assert_eq!(decode_data_url("aGVsbG8="), Err(MediaError::MissingPayload));
}

#[test]
fn payload_that_is_not_base64_is_refused() {
    assert!(matches!(
        decode_data_url("data:video/mp4;base64,not base64!"),
        Err(MediaError::InvalidBase64(_))
    ));
    assert!(matches!(decode_data_url("base64,aGVsbG8"), Err(MediaError::InvalidBase64(_))));
}

#[test]
fn video_must_come_as_data_url() {
    assert_eq!(video_bytes("/home/me/film.mp4"), Err(MediaError::UnsupportedSource));
    assert_eq!(video_bytes("https://example.org/base64,aGk="), Err(MediaError::UnsupportedSource));
    assert_eq!(video_bytes(""), Err(MediaError::UnsupportedSource));
    assert_eq!(video_bytes("data:video/mp4,plain"), Err(MediaError::MissingPayload));
    assert!(matches!(video_bytes("data:video/mp4;base64,???"), Err(MediaError::InvalidBase64(_))));
    assert_eq!(video_bytes("data:video/mp4;base64,aGk="), Ok(b"hi".to_vec()));
}

#[test]
fn audio_is_wrapped_into_a_data_url() {
    assert_eq!(audio_data_url(b"hello"), "data:audio/mp3;base64,aGVsbG8=");
    assert_eq!(audio_data_url(b""), "data:audio/mp3;base64,");
    assert_eq!(audio_data_url(&[0, 1, 2, 255]), "data:audio/mp3;base64,AAEC/w==");
}

#[test]
fn wrapped_audio_decodes_to_itself() {
    let audio: Vec<u8> = (0..=255u8).collect();
    assert_eq!(decode_data_url(&audio_data_url(&audio)), Ok(audio));
}

#[test]
fn fingerprint_is_the_md5_of_the_bytes() {
    assert_eq!(
        calculate_md5("data:video/mp4;base64,aGVsbG8="),
        Ok("5d41402abc4b2a76b9719d911017c592".to_string())
    );
    assert_eq!(
        calculate_md5("data:;base64,"),
        Ok("d41d8cd98f00b204e9800998ecf8427e".to_string())
    );
}

#[test]
fn fingerprint_needs_a_payload() {
    assert_eq!(calculate_md5("hello"), Err(MediaError::MissingPayload));
    assert!(matches!(calculate_md5("base64,*"), Err(MediaError::InvalidBase64(_))));
}

#[test]
fn text_outside_ascii_before_the_marker_is_skipped() {
    assert_eq!(data_url_payload("视频；base64,aGk=base64,é"), Some("aGk="));
    assert_eq!(decode_data_url("数据 base64,aGk="), Ok(b"hi".to_vec()));
    assert!(matches!(decode_data_url("base64,视频"), Err(MediaError::InvalidBase64(_))));
}
