//! Detecting whether the generated TypeScript interfaces changed.

use vstd::prelude::*;
use vstd::utf8::encode_utf8;
use crate::codec::{hex_lower, lemma_hex_lower_ascii, sha1_digest, sha1_hash, to_hex_lower};

verus! {

/// The checksum of a text: its SHA-1 digest over the UTF-8 bytes, in lower-case hex.
pub open spec fn checksum_text(content: Seq<char>) -> Seq<char> {
    hex_lower(sha1_digest(encode_utf8(content)))
}

/// The checksum of a file's content; forty hex digits.
pub fn file_checksum(content: &str) -> (r: String)
    ensures
        r@ == checksum_text(content@),
        r@.len() == 40,
{
    let digest = sha1_hash(content.as_bytes());
    proof {
        lemma_hex_lower_ascii(digest@);
    }
    to_hex_lower(digest.as_slice())
}

/// How the interfaces file compares before and after generation.
#[derive(PartialEq, Eq, Structural, Debug, Clone, Copy)]
pub enum InterfacesChange {
    Unchanged,
    Updated,
    Created,
    Failed,
}

/// Compares the checksums of the interfaces file taken before and after
/// generation; `None` stands for a file that could not be read.
pub fn interfaces_change(previous: &Option<String>, current: &Option<String>) -> (r: InterfacesChange)
    ensures
        r == match (previous, current) {
            (Some(p), Some(c)) => if p@ == c@ {
                InterfacesChange::Unchanged
            } else {
                InterfacesChange::Updated
            },
            (None, Some(_)) => InterfacesChange::Created,
            _ => InterfacesChange::Failed,
        },
{
    match (previous, current) {
        (Some(p), Some(c)) => {
            if *p == *c {
                InterfacesChange::Unchanged
            } else {
                InterfacesChange::Updated
            }
        },
        (None, Some(_)) => InterfacesChange::Created,
        _ => InterfacesChange::Failed,
    }
}

} // verus!
