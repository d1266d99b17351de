//! The client side of the bucket service that stores product images.

use vstd::prelude::*;
use vstd::string::StringExecFns;
use vstd::utf8::encode_utf8;
use crate::codec::{
    base64_bytes, base64_decode, base64_decoded, base64_encode, base64_len, base64_text, header_char,
    lemma_base64_header_chars, lemma_base64_utf8, lemma_uuid_text_ascii, uuid_text, uuid_to_string,
};

verus! {

#[verifier::external_type_specification]
#[verifier::external_body]
pub struct ExClient(reqwest::Client);

/// `reqwest::Client`'s derived `clone`, which shares the connection pool.
/// Nothing is stated of the copy: the client is opaque here.
pub assume_specification[ <reqwest::Client as Clone>::clone ](client: &reqwest::Client) -> reqwest::Client;

/// `id:key`, each UUID in its hyphenated text.
pub open spec fn basic_credentials(id: u128, key: u128) -> Seq<char> {
    uuid_text(id) + seq![':'] + uuid_text(key)
}

/// The `Authorization` header value for HTTP basic authentication with a key.
pub open spec fn authorization_text(id: u128, key: u128) -> Seq<char> {
    "Basic "@ + base64_text(encode_utf8(basic_credentials(id, key)))
}

/// Builds the basic authentication header value for a key id and a key.
/// Every character of it may stand in a header value.
pub fn basic_authorization(id: u128, key: u128) -> (r: String)
    ensures
        r@ == authorization_text(id, key),
        r@ == "Basic "@ + base64_text(encode_utf8(uuid_text(id) + seq![':'] + uuid_text(key))),
        forall|i| 0 <= i < r@.len() ==> header_char(#[trigger] r@[i]),
{
    proof {
        lemma_credentials_are_id_then_key(id, key);
    }
    let mut credentials = uuid_to_string(id);
    credentials.append(":");
    let key_text = uuid_to_string(key);
    credentials.append(key_text.as_str());
    proof {
        reveal_strlit(":");
        lemma_uuid_text_ascii(id);
        lemma_uuid_text_ascii(key);
        assert(credentials@ =~= basic_credentials(id, key));
        broadcast use vstd::utf8::is_ascii_chars_concat;
        assert(vstd::utf8::is_ascii_chars(seq![':']));
        assert(vstd::utf8::is_ascii_chars(basic_credentials(id, key)));
        vstd::utf8::is_ascii_chars_encode_utf8(basic_credentials(id, key));
        lemma_base64_header_chars(encode_utf8(basic_credentials(id, key)));
    }
    let encoded = base64_encode(credentials.as_str().as_bytes());
    let mut header = String::from_str("Basic ");
    header.append(encoded.as_str());
    proof {
        reveal_strlit("Basic ");
        assert forall|i| 0 <= i < header@.len() implies header_char(#[trigger] header@[i]) by {
            if i >= 6 {
                assert(header@[i] == encoded@[i - 6]);
            }
        }
    }
    header
}

/// Appends `path` to the service address `base`.
pub open spec fn endpoint(base: Seq<char>, path: Seq<char>) -> Seq<char> {
    base + path
}

/// The address that issues a new key.
pub fn key_url(base: &str) -> (r: String)
    ensures
        r@ == endpoint(base@, "/key"@),
        r@.take(base@.len() as int) == base@,
        r@.skip(base@.len() as int) == "/key"@,
{
    proof {
        lemma_endpoint_keeps_address(base@, "/key"@);
    }
    let mut r = String::from_str(base);
    r.append("/key");
    r
}

/// The address that checks a key.
pub fn verify_url(base: &str) -> (r: String)
    ensures
        r@ == endpoint(base@, "/key/verify"@),
        r@.take(base@.len() as int) == base@,
        r@.skip(base@.len() as int) == "/key/verify"@,
{
    proof {
        lemma_endpoint_keeps_address(base@, "/key/verify"@);
    }
    let mut r = String::from_str(base);
    r.append("/key/verify");
    r
}

/// The address that takes uploads.
pub fn upload_url(base: &str) -> (r: String)
    ensures
        r@ == endpoint(base@, "/upload"@),
        r@.take(base@.len() as int) == base@,
        r@.skip(base@.len() as int) == "/upload"@,
{
    proof {
        lemma_endpoint_keeps_address(base@, "/upload"@);
    }
    let mut r = String::from_str(base);
    r.append("/upload");
    r
}

/// The address that serves the file with the given id.
pub fn download_url(base: &str, file_id: u128) -> (r: String)
    ensures
        r@ == endpoint(base@, "/download/"@ + uuid_text(file_id)),
        r@.take(base@.len() as int) == base@,
        r@.skip(base@.len() as int) == "/download/"@ + uuid_text(file_id),
{
    proof {
        lemma_endpoint_keeps_address(base@, "/download/"@ + uuid_text(file_id));
    }
    let mut r = String::from_str(base);
    r.append("/download/");
    let id = uuid_to_string(file_id);
    r.append(id.as_str());
    r
}

/// The credentials name the key id as user and the key as password, in
/// that order whatever the two values: the id's UUID text, `:`, then the
/// key's UUID text.
pub proof fn lemma_credentials_are_id_then_key(id: u128, key: u128)
    ensures
        basic_credentials(id, key).len() == 73,
        basic_credentials(id, key).take(36) == uuid_text(id),
        basic_credentials(id, key)[36] == ':',
        basic_credentials(id, key).skip(37) == uuid_text(key),
        authorization_text(id, key) == "Basic "@ + base64_text(
            encode_utf8(uuid_text(id) + seq![':'] + uuid_text(key)),
        ),
{
    lemma_uuid_text_ascii(id);
    lemma_uuid_text_ascii(key);
    let c = basic_credentials(id, key);
    assert(c.take(36) =~= uuid_text(id));
    assert(c.skip(37) =~= uuid_text(key));
}

/// An address built from a service address starts with the whole service
/// address, path included, and goes on with the endpoint's path.
pub proof fn lemma_endpoint_keeps_address(base: Seq<char>, path: Seq<char>)
    ensures
        endpoint(base, path).len() == base.len() + path.len(),
        endpoint(base, path).take(base.len() as int) == base,
        endpoint(base, path).skip(base.len() as int) == path,
{
    assert(endpoint(base, path).take(base.len() as int) =~= base);
    assert(endpoint(base, path).skip(base.len() as int) =~= path);
}

/// Whether an HTTP status code reports success (the 2xx class).
pub fn status_is_success(status: u16) -> (r: bool)
    ensures
        r == (200 <= status && status <= 299),
{
    200 <= status && status <= 299
}

/// What happened while obtaining the bucket key.
#[derive(PartialEq, Eq, Structural, Debug, Clone, Copy)]
pub enum KeyEvent {
    /// `key.json` was read.
    StoredKeyRead,
    /// `key.json` could not be read.
    StoredKeyMissing,
    /// The service answered the request for a new key with this status.
    KeyIssued { status: u16 },
}

/// What to do next while obtaining the bucket key.
#[derive(PartialEq, Eq, Structural, Debug, Clone, Copy)]
pub enum KeyAction {
    /// Read the key from the stored file.
    UseStoredKey,
    /// Ask the service for a new key.
    RequestNewKey,
    /// Take the issued key and store it in `key.json`.
    SaveIssuedKey,
    /// Give up: the service refused to issue a key.
    FailIssue,
}

/// A stored key is used when there is one; otherwise a new key is asked
/// for, and kept only if the service answered with success.
pub fn next_key_action(event: KeyEvent) -> (r: KeyAction)
    ensures
        r == match event {
            KeyEvent::StoredKeyRead => KeyAction::UseStoredKey,
            KeyEvent::StoredKeyMissing => KeyAction::RequestNewKey,
            KeyEvent::KeyIssued { status } => if 200 <= status <= 299 {
                KeyAction::SaveIssuedKey
            } else {
                KeyAction::FailIssue
            },
        },
{
    match event {
        KeyEvent::StoredKeyRead => KeyAction::UseStoredKey,
        KeyEvent::StoredKeyMissing => KeyAction::RequestNewKey,
        KeyEvent::KeyIssued { status } => if status_is_success(status) {
            KeyAction::SaveIssuedKey
        } else {
            KeyAction::FailIssue
        },
    }
}

/// Credentials for the bucket service.
pub struct AuthKey {
    pub id: u128,
    pub key: u128,
}

impl AuthKey {
    pub fn new(key: u128, id: u128) -> (r: AuthKey)
        ensures
            r.key == key,
            r.id == id,
    {
        AuthKey { key, id }
    }

    /// The `Authorization` header value that the client sends with every request.
    pub fn authorization(&self) -> (r: String)
        ensures
            r@ == authorization_text(self.id, self.key),
            r@ == "Basic "@ + base64_text(encode_utf8(uuid_text(self.id) + seq![':'] + uuid_text(self.key))),
            forall|i| 0 <= i < r@.len() ==> header_char(#[trigger] r@[i]),
    {
        basic_authorization(self.id, self.key)
    }
}

/// Why a key could not be verified with the bucket service.
#[derive(PartialEq, Eq, Structural, Debug, Clone, Copy)]
pub enum KeyError {
    /// The service answered the verification with a status outside 2xx.
    Rejected,
}

/// Decides the answer to a key verification from the status the service sent.
pub fn check_verification(status: u16) -> (r: Result<(), KeyError>)
    ensures
        r is Ok <==> 200 <= status <= 299,
        r is Err ==> r == Err::<(), KeyError>(KeyError::Rejected),
{
    if status_is_success(status) {
        Ok(())
    } else {
        Err(KeyError::Rejected)
    }
}

/// Why an uploaded image could not be read.
pub enum ImageError {
    /// The image text is not standard base64; the decoder's error is kept.
    InvalidBase64(base64::DecodeError),
}

/// An HTTP client that carries the bucket credentials, and the service address.
#[derive(Clone)]
pub struct BucketClient {
    client: reqwest::Client,
    url: String,
}

impl BucketClient {
    /// The address of the bucket service.
    pub closed spec fn base(&self) -> Seq<char> {
        self.url@
    }

    /// The HTTP client.
    pub closed spec fn http(&self) -> reqwest::Client {
        self.client
    }

    /// Puts an authorized client together with the service address.
    pub fn with_client(client: reqwest::Client, url: &str) -> (r: BucketClient)
        ensures
            r.base() == url@,
            r.http() == client,
    {
        BucketClient { client, url: String::from_str(url) }
    }

    /// The HTTP client, which sends the credentials with every request.
    pub fn client(&self) -> (r: &reqwest::Client)
        ensures
            *r == self.http(),
    {
        &self.client
    }

    pub fn url(&self) -> (r: &str)
        ensures
            r@ == self.base(),
    {
        self.url.as_str()
    }

    /// The address that takes uploads.
    pub fn upload_url(&self) -> (r: String)
        ensures
            r@ == endpoint(self.base(), "/upload"@),
            r@.take(self.base().len() as int) == self.base(),
            r@.skip(self.base().len() as int) == "/upload"@,
    {
        upload_url(self.url.as_str())
    }

    /// The address that serves one file.
    pub fn download_url(&self, file_id: u128) -> (r: String)
        ensures
            r@ == endpoint(self.base(), "/download/"@ + uuid_text(file_id)),
            r@.take(self.base().len() as int) == self.base(),
            r@.skip(self.base().len() as int) == "/download/"@ + uuid_text(file_id),
    {
        download_url(self.url.as_str(), file_id)
    }

    /// The bytes of an image sent as base64 text; an error where the text is
    /// not valid standard base64. An accepted text is the canonical encoding
    /// of the bytes, so encoding them again gives the text back.
    pub fn decode_image(image: &str) -> (r: Result<Vec<u8>, ImageError>)
        ensures
            match r {
                Ok(v) => base64_decoded(encode_utf8(image@)) == Some(v@) && image@ == base64_text(
                    v@,
                ),
                Err(_) => base64_decoded(encode_utf8(image@)) is None,
            },
    {
        match base64_decode(image.as_bytes()) {
            Ok(bytes) => {
                proof {
                    lemma_base64_utf8(bytes@);
                    vstd::utf8::encode_utf8_decode_utf8(image@);
                    vstd::utf8::encode_utf8_decode_utf8(base64_text(bytes@));
                }
                Ok(bytes)
            },
            Err(e) => Err(ImageError::InvalidBase64(e)),
        }
    }

    /// A downloaded file, paired with its id and encoded as base64 text,
    /// which `decode_image` reads back to the same bytes.
    pub fn encode_download(file_id: u128, bytes: &[u8]) -> (r: (u128, String))
        requires
            base64_len(bytes@.len()) <= usize::MAX,
        ensures
            r.0 == file_id,
            r.1@ == base64_text(bytes@),
            base64_decoded(encode_utf8(r.1@)) == Some(bytes@),
    {
        let text = base64_encode(bytes);
        proof {
            lemma_base64_utf8(bytes@);
            assert(Seq::new(text@.len(), |i: int| text@[i] as u8) =~= base64_bytes(bytes@));
        }
        (file_id, text)
    }
}

} // verus!
