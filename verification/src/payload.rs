//! Encoded payloads and the stable hash over them.

use crate::ordered::Value;
use crate::text::{hex, hex_text, text_eq};
use sha2::Digest;
use vstd::prelude::*;
use vstd::string::*;

verus! {

/// The SHA-256 digest of bytes.
pub uninterp spec fn sha256_digest(bytes: Seq<u8>) -> Seq<u8>;

/// `sha2::Sha256::digest` gives the 32 bytes of the SHA-256 digest of its input.
#[verifier::external_body]
fn sha256(bytes: &[u8]) -> (r: Vec<u8>)
    ensures
        r@ == sha256_digest(bytes@),
        r@.len() == 32,
{
    sha2::Sha256::digest(bytes).to_vec()
}

/// A value as its encoder wrote it, or the reason why it has no encoding.
#[derive(Debug, PartialEq, Eq)]
pub enum EncodedPayload {
    Json(Vec<u8>),
    Unencodable(String),
}

/// The model of [`EncodedPayload`].
pub enum EncodedPayloadModel {
    Json(Seq<u8>),
    Unencodable(Seq<char>),
}

impl DeepView for EncodedPayload {
    type V = EncodedPayloadModel;

    open spec fn deep_view(&self) -> EncodedPayloadModel {
        match self {
            EncodedPayload::Json(bytes) => EncodedPayloadModel::Json(bytes.deep_view()),
            EncodedPayload::Unencodable(error) => EncodedPayloadModel::Unencodable(error@),
        }
    }
}

impl Value for EncodedPayload {
    fn duplicate(&self) -> (r: Self) {
        match self {
            EncodedPayload::Json(bytes) => EncodedPayload::Json(bytes.duplicate()),
            EncodedPayload::Unencodable(error) => EncodedPayload::Unencodable(error.clone()),
        }
    }

    fn same(&self, other: &Self) -> (r: bool) {
        match (self, other) {
            (EncodedPayload::Json(a), EncodedPayload::Json(b)) => a.same(b),
            (EncodedPayload::Unencodable(a), EncodedPayload::Unencodable(b)) => text_eq(
                a.as_str(),
                b.as_str(),
            ),
            _ => false,
        }
    }
}

impl Clone for EncodedPayload {
    fn clone(&self) -> (r: Self)
        ensures
            r.deep_view() == self.deep_view(),
    {
        self.duplicate()
    }
}

/// The bytes that stand for a payload in its hash.
pub open spec fn hashed_bytes(payload: EncodedPayloadModel) -> Seq<u8> {
    match payload {
        EncodedPayloadModel::Json(bytes) => bytes,
        EncodedPayloadModel::Unencodable(error) => vstd::utf8::encode_utf8(
            "serialization_error:"@ + error,
        ),
    }
}

/// A payload with text around it.
pub open spec fn framed_payload(
    head: Seq<char>,
    payload: EncodedPayloadModel,
    tail: Seq<char>,
) -> EncodedPayloadModel {
    match payload {
        EncodedPayloadModel::Json(bytes) => EncodedPayloadModel::Json(
            vstd::utf8::encode_utf8(head) + bytes + vstd::utf8::encode_utf8(tail),
        ),
        EncodedPayloadModel::Unencodable(error) => EncodedPayloadModel::Unencodable(error),
    }
}

/// Puts text around a payload.
pub fn frame_payload(head: &str, payload: &EncodedPayload, tail: &str) -> (r: EncodedPayload)
    ensures
        r.deep_view() == framed_payload(head@, payload.deep_view(), tail@),
{
    match payload {
        EncodedPayload::Json(bytes) => {
            let mut framed = head.as_bytes_vec();
            framed.extend_from_slice(bytes.as_slice());
            framed.extend_from_slice(tail.as_bytes());
            assert(framed@ =~= head.spec_bytes() + bytes@ + tail.spec_bytes());
            assert(bytes.deep_view() =~= bytes@);
            assert(framed.deep_view() =~= framed@);
            EncodedPayload::Json(framed)
        },
        EncodedPayload::Unencodable(error) => EncodedPayload::Unencodable(error.clone()),
    }
}

/// The notation of a digest.
pub open spec fn digest_notation(digest: Seq<u8>) -> Seq<char> {
    "sha256:"@ + hex(digest)
}

/// Writes a digest with the name of its algorithm.
pub fn digest_text(digest: &Vec<u8>) -> (r: String)
    ensures
        r@ == digest_notation(digest@),
{
    let mut r = "sha256:".to_owned();
    r.append(hex_text(digest).as_str());
    r
}

/// The stable hash of a payload.
pub open spec fn payload_hash(payload: EncodedPayloadModel) -> Seq<char> {
    digest_notation(sha256_digest(hashed_bytes(payload)))
}

/// Hashes a payload to a text that is the same for the same encoding.
pub fn stable_json_hash(payload: &EncodedPayload) -> (r: String)
    ensures
        r@ == payload_hash(payload.deep_view()),
{
    let digest = match payload {
        EncodedPayload::Json(bytes) => {
            assert(bytes.deep_view() =~= bytes@);
            sha256(bytes.as_slice())
        },
        EncodedPayload::Unencodable(error) => {
            let mut text = "serialization_error:".to_owned();
            text.append(error.as_str());
            sha256(text.as_str().as_bytes())
        },
    };
    digest_text(&digest)
}

} // verus!
