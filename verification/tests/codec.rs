use backend::checksum::file_checksum;
use backend::codec::{hex_digit_char, to_hex_lower};
use backend::routes::products::files::{download_url, BucketClient, ImageError};
use backend::startup::bucket_key;

#[test]
fn hex_is_lower_case_two_digits_per_byte() {
    assert_eq!(to_hex_lower(&[0x0a, 0x14, 0x1e, 0xff]), "0a141eff");
    assert_eq!(to_hex_lower(&[]), "");
    assert_eq!(hex_digit_char(11), 'b');
    assert_eq!(hex_digit_char(9), '9');
}

#[test]
fn uuid_text_is_hyphenated_big_endian() {
    assert_eq!(
        download_url("", 0xa1a2a3a4b1b2c1c2d1d2d3d4d5d6d7d8),
        "/download/a1a2a3a4-b1b2-c1c2-d1d2-d3d4d5d6d7d8"
    );
    assert_eq!(download_url("", 0), "/download/00000000-0000-0000-0000-000000000000");
}

#[test]
fn uuid_text_parses_in_several_formats() {
    let hyphenated = bucket_key("550e8400-e29b-41d4-a716-446655440000", "00000000000000000000000000001234").unwrap();
    assert_eq!(hyphenated.key, 0x550e8400e29b41d4a716446655440000);
    assert_eq!(hyphenated.id, 0x1234);
    let braced = bucket_key("{550E8400-E29B-41D4-A716-446655440000}", "urn:uuid:00000000-0000-0000-0000-000000001234").unwrap();
    assert_eq!(braced.key, 0x550e8400e29b41d4a716446655440000);
    assert_eq!(braced.id, 0x1234);
    assert!(bucket_key("not a uuid", "00000000000000000000000000001234").is_none());
}

#[test]
fn base64_pads_to_four_characters() {
    assert_eq!(BucketClient::encode_download(1, b"hello world~").1, "aGVsbG8gd29ybGR+");
    assert_eq!(BucketClient::encode_download(1, &[0x00, 0xff, 0x10]).1, "AP8Q");
    assert_eq!(BucketClient::encode_download(1, b"ab").1, "YWI=");
    assert_eq!(BucketClient::encode_download(1, b"a").1, "YQ==");
    assert_eq!(BucketClient::encode_download(1, b"").1, "");
}

#[test]
fn base64_decodes_and_refuses_bad_text() {
    assert_eq!(BucketClient::decode_image("YWI=").ok(), Some(b"ab".to_vec()));
    assert!(matches!(BucketClient::decode_image("Y"), Err(ImageError::InvalidBase64(_))));
    assert!(matches!(BucketClient::decode_image("!!!!"), Err(ImageError::InvalidBase64(_))));
    assert_eq!(BucketClient::decode_image("").ok(), Some(vec![]));
}

#[test]
fn sha1_of_abc() {
    assert_eq!(file_checksum("abc"), "a9993e364706816aba3e25717850c26c9cd0d89d");
}
