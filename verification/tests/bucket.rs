use backend::routes::files::{AuthKey as StoredKey, LOCAL_BUCKET};
use backend::routes::products::files::{
    basic_authorization, check_verification, download_url, key_url, status_is_success,
    upload_url, verify_url, next_key_action, AuthKey, BucketClient, ImageError, KeyAction,
    KeyError, KeyEvent,
};

const ID: u128 = 0xa1a2a3a4b1b2c1c2d1d2d3d4d5d6d7d8;
const KEY: u128 = 0x550e8400e29b41d4a716446655440000;
const HEADER: &str = "Basic YTFhMmEzYTQtYjFiMi1jMWMyLWQxZDItZDNkNGQ1ZDZkN2Q4OjU1MGU4NDAwLWUyOWItNDFkNC1hNzE2LTQ0NjY1NTQ0MDAwMA==";

#[test]
fn authorization_is_basic_id_and_key() {
    assert_eq!(basic_authorization(ID, KEY), HEADER);
    let key = AuthKey::new(KEY, ID);
    assert_eq!(key.id, ID);
    assert_eq!(key.key, KEY);
    assert_eq!(key.authorization(), HEADER);
}

#[test]
fn stored_key_uses_key_id_as_user() {
    let stored = StoredKey { key_id: ID, key: KEY };
    assert_eq!(stored.authorization(), HEADER);
}

#[test]
fn authorization_is_a_valid_header_value() {
    let header = basic_authorization(u128::MAX, 0);
    assert!(header.chars().all(|c| (' '..='~').contains(&c)));
}

#[test]
fn endpoints_are_appended_to_the_address() {
    assert_eq!(key_url(LOCAL_BUCKET), "http://127.0.0.1:3001/key");
    assert_eq!(verify_url("https://b.example"), "https://b.example/key/verify");
    assert_eq!(upload_url("http://h"), "http://h/upload");
    assert_eq!(
        download_url(LOCAL_BUCKET, KEY),
        "http://127.0.0.1:3001/download/550e8400-e29b-41d4-a716-446655440000"
    );
}

#[test]
fn client_urls_use_its_address() {
    let client = BucketClient::with_client(reqwest::Client::new(), "http://bucket:9");
    assert_eq!(client.url(), "http://bucket:9");
    assert_eq!(client.upload_url(), "http://bucket:9/upload");
    assert_eq!(
        client.download_url(ID),
        "http://bucket:9/download/a1a2a3a4-b1b2-c1c2-d1d2-d3d4d5d6d7d8"
    );
    let copy = client.clone();
    assert_eq!(copy.url(), "http://bucket:9");
}

#[test]
fn success_is_the_2xx_class() {
    assert!(status_is_success(200));
    assert!(status_is_success(299));
    assert!(!status_is_success(199));
    assert!(!status_is_success(300));
    assert!(!status_is_success(401));
}

#[test]
fn verification_answer_follows_status() {
    assert_eq!(check_verification(204), Ok(()));
    assert_eq!(check_verification(403), Err(KeyError::Rejected));
}

#[test]
fn images_decode_from_base64() {
    assert_eq!(BucketClient::decode_image("AP8Q").ok(), Some(vec![0x00, 0xff, 0x10]));
    assert!(matches!(BucketClient::decode_image("AP8"), Err(ImageError::InvalidBase64(_))));
}

#[test]
fn downloads_encode_to_base64() {
    assert_eq!(
        BucketClient::encode_download(KEY, b"hello world~"),
        (KEY, String::from("aGVsbG8gd29ybGR+"))
    );
}

#[test]
fn stored_key_is_preferred_and_issued_key_needs_success() {
    assert_eq!(next_key_action(KeyEvent::StoredKeyRead), KeyAction::UseStoredKey);
    assert_eq!(next_key_action(KeyEvent::StoredKeyMissing), KeyAction::RequestNewKey);
    assert_eq!(next_key_action(KeyEvent::KeyIssued { status: 201 }), KeyAction::SaveIssuedKey);
    assert_eq!(next_key_action(KeyEvent::KeyIssued { status: 500 }), KeyAction::FailIssue);
}

#[test]
fn uploaded_image_comes_back_as_the_same_text() {
    for image in ["", "YQ==", "YWI=", "AP8Q", "aGVsbG8gd29ybGR+", "iVBORw0KGgo="] {
        let bytes = BucketClient::decode_image(image).ok().unwrap();
        assert_eq!(BucketClient::encode_download(9, &bytes).1, image);
    }
    for bytes in [vec![], vec![0u8], vec![255, 254], vec![1, 2, 3, 4, 5]] {
        let (_, text) = BucketClient::encode_download(9, &bytes);
        assert_eq!(BucketClient::decode_image(&text).ok(), Some(bytes));
    }
    assert!(BucketClient::decode_image("YR==").is_err());
}
