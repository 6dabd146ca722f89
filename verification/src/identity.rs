//! Content-derived identifiers: native approval ids and stable UUIDs.
use sha2::{Digest, Sha256};
use vstd::prelude::*;
use crate::errors::{control_error, is_error, ControlError, ErrorCode};
use crate::json::{json_int, json_string, push_bytes};
use crate::text::{hex_bytes, push_hex_bytes, push_str, texts, utf8};

verus! {

/// The SHA-256 digest of a byte string.
pub uninterp spec fn sha256(data: Seq<u8>) -> Seq<u8>;


/// `sha2::Sha256::digest`: the 32-byte SHA-256 digest of `data`.
#[verifier::external_body]
pub(crate) fn sha256_digest(data: &[u8]) -> (digest: Vec<u8>)
    ensures
        digest@ == sha256(data@),
        digest@.len() == 32,
{
    Sha256::digest(data).to_vec()
}

/// `serde_json::to_vec` of a string: the string literal with `"` and `\`
/// escaped by a backslash, `\b \t \n \f \r` by name, other control bytes
/// as `\u00XX` in lowercase hex, and every other byte as it is (serde_json's
/// `format_escaped_str`; see `json_string`). Writing to a `Vec` cannot fail.
#[verifier::external_body]
pub(crate) fn json_str_bytes(text: &str) -> (bytes: Option<Vec<u8>>)
    ensures
        bytes is Some,
        bytes.unwrap()@ == json_string(text@),
{
    serde_json::to_vec(text).ok()
}

/// `serde_json::to_vec` of an `i64`: its decimal digits, after `-` when it
/// is negative (see `json_int`). Writing to a `Vec` cannot fail.
#[verifier::external_body]
pub(crate) fn json_i64_bytes(value: i64) -> (bytes: Option<Vec<u8>>)
    ensures
        bytes is Some,
        bytes.unwrap()@ == json_int(value as int),
{
    serde_json::to_vec(&value).ok()
}

/// The correlation id an agent gives an approval request.
#[derive(Debug)]
pub enum ProtocolRequestId {
    Text(String),
    Integer(i64),
}

/// The JSON text of a request id.
pub open spec fn request_id_json(id: ProtocolRequestId) -> Option<Seq<u8>> {
    match id {
        ProtocolRequestId::Text(t) => Some(json_string(t@)),
        ProtocolRequestId::Integer(n) => Some(json_int(n as int)),
    }
}

/// The durable id of a native approval: `native-` and the hex SHA-256 of the
/// Run id, a zero byte, and the JSON text of the agent's request id.
pub open spec fn native_approval_id_text(run_id: Seq<char>, request_json: Seq<u8>) -> Seq<char> {
    "native-"@ + hex_bytes(sha256(utf8(run_id) + seq![0u8] + request_json))
}

/// The error of a request id that cannot be serialized.
pub open spec fn unserializable_id_error() -> (ErrorCode, Seq<char>, bool) {
    (ErrorCode::ToolApprovalRequired, "native approval request id is not serializable"@, false)
}

/// Derives the durable id of a native approval request (see `native_approval_id_text`).
pub fn native_approval_id(run_id: &str, request_id: &ProtocolRequestId) -> (result: Result<
    String,
    ControlError,
>)
    ensures
        match (result, request_id_json(*request_id)) {
            (Ok(id), Some(json)) => id@ == native_approval_id_text(run_id@, json),
            (Err(e), None) => is_error(
                e,
                unserializable_id_error().0,
                unserializable_id_error().1,
                unserializable_id_error().2,
            ),
            _ => false,
        },
{
    let encoded = match request_id {
        ProtocolRequestId::Text(t) => json_str_bytes(t.as_str()),
        ProtocolRequestId::Integer(n) => json_i64_bytes(*n),
    };
    let encoded = match encoded {
        Some(b) => b,
        None => {
            return Err(
                control_error(ErrorCode::ToolApprovalRequired, "native approval request id is not serializable", false),
            );
        },
    };
    let mut data: Vec<u8> = Vec::new();
    push_bytes(&mut data, run_id.as_bytes());
    data.push(0);
    push_bytes(&mut data, encoded.as_slice());
    proof {
        assert(data@ =~= utf8(run_id@) + seq![0u8] + encoded@);
    }
    let digest = sha256_digest(data.as_slice());
    let mut id = String::new();
    push_str(&mut id, "native-");
    push_hex_bytes(&mut id, digest.as_slice());
    proof {
        assert(id@ =~= native_approval_id_text(run_id@, encoded@));
    }
    Ok(id)
}

/// The `k` low-order bytes of `n`, most significant first.
pub open spec fn be_bytes(n: nat, k: nat) -> Seq<u8>
    decreases k,
{
    if k == 0 {
        Seq::empty()
    } else {
        be_bytes(n / 256, (k - 1) as nat).push((n % 256) as u8)
    }
}

/// The eight big-endian bytes of a length.
pub open spec fn be_u64(n: u64) -> Seq<u8> {
    be_bytes(n as nat, 8)
}

/// The length-prefixed framing of a list of texts that `stable_uuid` hashes:
/// each part as its UTF-8 length in eight big-endian bytes, then its bytes.
pub open spec fn uuid_frame(parts: Seq<Seq<char>>) -> Seq<u8>
    decreases parts.len(),
{
    if parts.len() == 0 {
        Seq::empty()
    } else {
        uuid_frame(parts.drop_last()) + be_u64(utf8(parts.last()).len() as u64) + utf8(parts.last())
    }
}

/// The sixteen UUID bytes taken from a digest, with version 8 and the RFC variant set.
pub open spec fn uuid_bytes(digest: Seq<u8>) -> Seq<u8> {
    digest.take(16).update(6, (digest[6] & 0x0f) | 0x80).update(8, (digest[8] & 0x3f) | 0x80)
}

/// The hyphenated lowercase text of sixteen UUID bytes (8-4-4-4-12 hex digits).
pub open spec fn uuid_hyphenated(bytes: Seq<u8>) -> Seq<char> {
    hex_bytes(bytes.subrange(0, 4)) + "-"@ + hex_bytes(bytes.subrange(4, 6)) + "-"@ + hex_bytes(
        bytes.subrange(6, 8),
    ) + "-"@ + hex_bytes(bytes.subrange(8, 10)) + "-"@ + hex_bytes(bytes.subrange(10, 16))
}

/// `uuid::Uuid::from_slice(..).to_string()`: the hyphenated lowercase text of sixteen bytes.
#[verifier::external_body]
pub(crate) fn uuid_text(bytes: &[u8]) -> (text: String)
    requires
        bytes@.len() == 16,
    ensures
        text@ == uuid_hyphenated(bytes@),
{
    match uuid::Uuid::from_slice(bytes) {
        Ok(id) => id.to_string(),
        Err(_) => String::new(),
    }
}

fn push_be_bytes(out: &mut Vec<u8>, n: u64, k: usize)
    ensures
        final(out)@ == old(out)@ + be_bytes(n as nat, k as nat),
    decreases k,
{
    if k > 0 {
        push_be_bytes(out, n / 256, k - 1);
        out.push((n % 256) as u8);
        proof {
            assert(out@ =~= old(out)@ + be_bytes(n as nat, k as nat));
        }
    } else {
        proof {
            assert(out@ =~= old(out)@ + be_bytes(n as nat, k as nat));
        }
    }
}

/// A UUID derived from the SHA-256 of the length-prefixed parts, so that the
/// same parts always name the same entity.
pub fn stable_uuid(parts: &Vec<String>) -> (id: String)
    ensures
        id@ == uuid_hyphenated(uuid_bytes(sha256(uuid_frame(texts(parts@))))),
{
    let mut frame: Vec<u8> = Vec::new();
    let mut i: usize = 0;
    while i < parts.len()
        invariant
            i <= parts@.len(),
            frame@ == uuid_frame(texts(parts@).take(i as int)),
        decreases parts.len() - i,
    {
        let bytes = parts[i].as_str().as_bytes();
        let length = bytes.len();
        let ghost before = frame@;
        push_be_bytes(&mut frame, length as u64, 8);
        push_bytes(&mut frame, bytes);
        proof {
            let t = texts(parts@).take(i + 1);
            assert(t.drop_last() =~= texts(parts@).take(i as int));
            assert(t.last() == parts@[i as int]@);
        }
        i = i + 1;
    }
    proof {
        assert(texts(parts@).take(parts@.len() as int) =~= texts(parts@));
    }
    let digest = sha256_digest(frame.as_slice());
    let mut bytes: Vec<u8> = Vec::new();
    let mut j: usize = 0;
    while j < 16
        invariant
            j <= 16,
            digest@.len() == 32,
            bytes@ == digest@.take(j as int),
        decreases 16 - j,
    {
        bytes.push(digest[j]);
        proof {
            assert(digest@.take(j + 1) =~= digest@.take(j as int).push(digest@[j as int]));
        }
        j = j + 1;
    }
    let b6 = (bytes[6] & 0x0f) | 0x80;
    let b8 = (bytes[8] & 0x3f) | 0x80;
    let _old6 = bytes.remove(6);
    bytes.insert(6, b6);
    let _old8 = bytes.remove(8);
    bytes.insert(8, b8);
    proof {
        assert(bytes@ =~= uuid_bytes(digest@));
    }
    uuid_text(bytes.as_slice())
}

} // verus!
