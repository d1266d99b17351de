//! The upload and download endpoints that forward files to the local bucket service.

use vstd::prelude::*;
use crate::routes::products::files::{authorization_text, basic_authorization};
use crate::codec::{base64_text, header_char, uuid_text};
use vstd::utf8::encode_utf8;

verus! {

/// Where the bucket service listens on the development machine.
pub const LOCAL_BUCKET: &'static str = "http://127.0.0.1:3001";

/// An HTTP client that carries the bucket credentials.
pub struct BucketClient(pub reqwest::Client);

/// A key as the bucket service issues it and as it is kept in `key.json`.
pub struct AuthKey {
    pub key_id: u128,
    pub key: u128,
}

impl AuthKey {
    /// The `Authorization` header value for this key: basic authentication
    /// with the key id as user and the key as password.
    pub fn authorization(&self) -> (r: String)
        ensures
            r@ == authorization_text(self.key_id, self.key),
            r@ == "Basic "@ + base64_text(encode_utf8(uuid_text(self.key_id) + seq![':'] + uuid_text(self.key))),
            forall|i| 0 <= i < r@.len() ==> header_char(#[trigger] r@[i]),
    {
        basic_authorization(self.key_id, self.key)
    }
}

} // verus!
