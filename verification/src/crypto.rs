//! Token hashing and message signing, over SHA-256, HMAC-SHA256 and hex text.
use vstd::prelude::*;
use hmac::Mac;
use sha2::Digest;
use crate::text::same_text;

verus! {

/// The SHA-256 digest of `data`, as `sha2::Sha256` computes it.
pub uninterp spec fn spec_sha256(data: Seq<u8>) -> Seq<u8>;

/// The HMAC-SHA256 tag of `message` under `key`, as `hmac::Hmac<sha2::Sha256>` computes it.
pub uninterp spec fn spec_hmac_sha256(key: Seq<u8>, message: Seq<u8>) -> Seq<u8>;

/// The lower-case hex character of a nibble.
pub open spec fn hex_digit(n: nat) -> char {
    if n < 10 {
        ((48 + n) as u32) as char
    } else {
        ((87 + n) as u32) as char
    }
}

/// `bytes` written as lower-case hex, two characters per byte, high nibble first.
pub open spec fn hex_lower(bytes: Seq<u8>) -> Seq<char>
    decreases bytes.len(),
{
    if bytes.len() == 0 {
        seq![]
    } else {
        seq![hex_digit((bytes[0] / 16) as nat), hex_digit((bytes[0] % 16) as nat)] + hex_lower(
            bytes.skip(1),
        )
    }
}

/// The value of one hex character, either case.
pub open spec fn hex_value(c: u8) -> Option<u8> {
    if 65 <= c <= 70 {
        Some((c - 55) as u8)
    } else if 97 <= c <= 102 {
        Some((c - 87) as u8)
    } else if 48 <= c <= 57 {
        Some((c - 48) as u8)
    } else {
        None
    }
}

/// The bytes that hex text decodes to: `None` for an odd length or a non-hex character.
pub open spec fn hex_decode_bytes(text: Seq<u8>) -> Option<Seq<u8>>
    decreases text.len(),
{
    if text.len() % 2 != 0 {
        None
    } else if text.len() == 0 {
        Some(seq![])
    } else {
        match (hex_value(text[0]), hex_value(text[1]), hex_decode_bytes(text.skip(2))) {
            (Some(hi), Some(lo), Some(rest)) => Some(seq![(hi * 16 + lo) as u8] + rest),
            _ => None,
        }
    }
}

/// The stored form of a token: the hex text of the SHA-256 digest of its UTF-8 bytes.
pub open spec fn token_hash_text(token: Seq<char>) -> Seq<char> {
    hex_lower(spec_sha256(vstd::utf8::encode_utf8(token)))
}

/// A token is accepted against a stored hash when its own hash text equals it.
pub open spec fn token_accepted(token: Seq<char>, stored_hash: Seq<char>) -> bool {
    token_hash_text(token) == stored_hash
}

/// The signature of a message: the hex text of its HMAC-SHA256 tag.
pub open spec fn signature_text(key: Seq<u8>, message: Seq<u8>) -> Seq<char> {
    hex_lower(spec_hmac_sha256(key, message))
}

/// A signature is accepted when its text decodes as hex to the message's tag.
pub open spec fn signature_accepted(key: Seq<u8>, message: Seq<u8>, signature: Seq<char>) -> bool {
    hex_decode_bytes(vstd::utf8::encode_utf8(signature)) == Some(spec_hmac_sha256(key, message))
}

/// Digest of `data` by `sha2::Sha256` (new, update, finalize).
#[verifier::external_body]
fn sha256(data: &[u8]) -> (digest: Vec<u8>)
    ensures
        digest@ == spec_sha256(data@),
        digest@.len() == 32,
{
    let mut hasher = sha2::Sha256::new();
    hasher.update(data);
    hasher.finalize().to_vec()
}

/// Tag of `message` under `key` by `hmac::Hmac<sha2::Sha256>` (new_from_slice, update, finalize).
/// `new_from_slice` accepts keys of every length for HMAC, so the `expect` never fires.
#[verifier::external_body]
fn hmac_sha256(key: &[u8], message: &[u8]) -> (tag: Vec<u8>)
    ensures
        tag@ == spec_hmac_sha256(key@, message@),
        tag@.len() == 32,
{
    let mut mac = <hmac::Hmac<sha2::Sha256> as Mac>::new_from_slice(key).expect(
        "HMAC can take key of any size",
    );
    mac.update(message);
    mac.finalize().into_bytes().to_vec()
}

/// `Mac::verify_slice` of `hmac::Hmac<sha2::Sha256>`: succeeds exactly when `tag` has the tag's
/// length and equals it byte for byte (compared in constant time).
#[verifier::external_body]
fn hmac_sha256_verify(key: &[u8], message: &[u8], tag: &[u8]) -> (ok: bool)
    ensures
        ok == (tag@ == spec_hmac_sha256(key@, message@)),
{
    let mut mac = <hmac::Hmac<sha2::Sha256> as Mac>::new_from_slice(key).expect(
        "HMAC can take key of any size",
    );
    mac.update(message);
    mac.verify_slice(tag).is_ok()
}

/// `hex::encode`: lower-case hex, high nibble first.
#[verifier::external_body]
pub(crate) fn hex_encode(data: &[u8]) -> (text: String)
    ensures
        text@ == hex_lower(data@),
{
    hex::encode(data)
}

/// `hex::decode`: `Err` on an odd length or on a byte that is no hex digit of either case.
#[verifier::external_body]
fn hex_decode(text: &[u8]) -> (bytes: Option<Vec<u8>>)
    ensures
        match bytes {
            Some(b) => hex_decode_bytes(text@) == Some(b@),
            None => hex_decode_bytes(text@) is None,
        },
{
    match hex::decode(text) {
        Ok(b) => Some(b),
        Err(_) => None,
    }
}

/// A lower-case hex digit: `0` to `9` or `a` to `f`.
pub open spec fn lower_hex_char(c: char) -> bool {
    ('0' <= c <= '9') || ('a' <= c <= 'f')
}

/// Hash a token using SHA256 for secure storage: 64 lower-case hex digits.
pub fn hash_token(token: &str) -> (hash: String)
    ensures
        hash@ == token_hash_text(token@),
        hash@.len() == 64,
        forall|i: int| 0 <= i < hash@.len() ==> lower_hex_char(#[trigger] hash@[i]),
{
    let digest = sha256(token.as_bytes());
    let hash = hex_encode(digest.as_slice());
    proof {
        lemma_hex_lower_len(digest@);
        lemma_hex_lower_digits(digest@);
    }
    hash
}

/// Verify a token by comparing hashes.
pub fn verify_token(token: &str, stored_hash: &str) -> (ok: bool)
    ensures
        ok == token_accepted(token@, stored_hash@),
{
    let computed = hash_token(token);
    same_text(computed.as_str(), stored_hash)
}

/// Sign a message with a symmetric key using HMAC-SHA256.
pub fn sign_message(key: &[u8], message: &[u8]) -> (signature: String)
    ensures
        signature@ == signature_text(key@, message@),
{
    let tag = hmac_sha256(key, message);
    hex_encode(tag.as_slice())
}

/// Verify a message signature using HMAC-SHA256.
pub fn verify_signature(key: &[u8], message: &[u8], signature: &str) -> (ok: bool)
    ensures
        ok == signature_accepted(key@, message@, signature@),
{
    match hex_decode(signature.as_bytes()) {
        Some(bytes) => hmac_sha256_verify(key, message, bytes.as_slice()),
        None => false,
    }
}

/// The bytes of `hex_lower(bytes)`.
pub open spec fn hex_lower_bytes(bytes: Seq<u8>) -> Seq<u8>
    decreases bytes.len(),
{
    if bytes.len() == 0 {
        seq![]
    } else {
        seq![hex_digit((bytes[0] / 16) as nat) as u8, hex_digit((bytes[0] % 16) as nat) as u8]
            + hex_lower_bytes(bytes.skip(1))
    }
}

proof fn lemma_hex_digit(n: nat)
    requires
        n < 16,
    ensures
        (hex_digit(n) as u32) < 128,
        hex_value(hex_digit(n) as u8) == Some(n as u8),
{
    if n < 10 {
        assert((((48 + n) as u32) as char) as u32 == 48 + n);
        assert((((48 + n) as u32) as char) as u8 == 48 + n);
    } else {
        assert((((87 + n) as u32) as char) as u32 == 87 + n);
        assert((((87 + n) as u32) as char) as u8 == 87 + n);
    }
}

proof fn lemma_hex_lower_shape(bytes: Seq<u8>)
    ensures
        hex_lower(bytes).len() == 2 * bytes.len(),
        vstd::utf8::is_ascii_chars(hex_lower(bytes)),
        forall|i: int|
            0 <= i < hex_lower(bytes).len() ==> #[trigger] hex_lower(bytes)[i] as u8
                == hex_lower_bytes(bytes)[i],
        hex_lower_bytes(bytes).len() == 2 * bytes.len(),
    decreases bytes.len(),
{
    if bytes.len() > 0 {
        lemma_hex_lower_shape(bytes.skip(1));
        lemma_hex_digit((bytes[0] / 16) as nat);
        lemma_hex_digit((bytes[0] % 16) as nat);
        let head = seq![hex_digit((bytes[0] / 16) as nat), hex_digit((bytes[0] % 16) as nat)];
        let tail = hex_lower(bytes.skip(1));
        assert(hex_lower(bytes) == head + tail);
        assert forall|i: int| 0 <= i < hex_lower(bytes).len() implies '\0' <= #[trigger] hex_lower(bytes)[i] <= '\u{7f}' by {
            if i >= 2 {
                assert(hex_lower(bytes)[i] == tail[i - 2]);
            }
        }
    }
}

proof fn lemma_hex_roundtrip(bytes: Seq<u8>)
    ensures
        hex_decode_bytes(hex_lower_bytes(bytes)) == Some(bytes),
    decreases bytes.len(),
{
    lemma_hex_lower_shape(bytes);
    if bytes.len() > 0 {
        let t = hex_lower_bytes(bytes);
        lemma_hex_roundtrip(bytes.skip(1));
        lemma_hex_lower_shape(bytes.skip(1));
        lemma_hex_digit((bytes[0] / 16) as nat);
        lemma_hex_digit((bytes[0] % 16) as nat);
        assert(t.skip(2) =~= hex_lower_bytes(bytes.skip(1)));
        assert(t.len() % 2 == 0);
        let hi = (bytes[0] / 16) as u8;
        let lo = (bytes[0] % 16) as u8;
        assert((hi * 16 + lo) as u8 == bytes[0]);
        assert(seq![bytes[0]] + bytes.skip(1) =~= bytes);
    } else {
        assert(hex_lower_bytes(bytes) =~= seq![]);
        assert(bytes =~= seq![]);
    }
}

/// Hex text is made of lower-case hex digits.
pub proof fn lemma_hex_lower_digits(bytes: Seq<u8>)
    ensures
        forall|i: int| 0 <= i < hex_lower(bytes).len() ==> lower_hex_char(#[trigger] hex_lower(bytes)[i]),
    decreases bytes.len(),
{
    if bytes.len() > 0 {
        lemma_hex_lower_digits(bytes.skip(1));
        let hi = (bytes[0] / 16) as nat;
        let lo = (bytes[0] % 16) as nat;
        assert(lower_hex_char(hex_digit(hi))) by {
            if hi < 10 {
                assert((((48 + hi) as u32) as char) as u32 == 48 + hi);
            } else {
                assert((((87 + hi) as u32) as char) as u32 == 87 + hi);
            }
        }
        assert(lower_hex_char(hex_digit(lo))) by {
            if lo < 10 {
                assert((((48 + lo) as u32) as char) as u32 == 48 + lo);
            } else {
                assert((((87 + lo) as u32) as char) as u32 == 87 + lo);
            }
        }
        let head = seq![hex_digit(hi), hex_digit(lo)];
        let tail = hex_lower(bytes.skip(1));
        assert(hex_lower(bytes) == head + tail);
        assert forall|i: int| 0 <= i < hex_lower(bytes).len() implies lower_hex_char(#[trigger] hex_lower(bytes)[i]) by {
            if i >= 2 {
                assert(hex_lower(bytes)[i] == tail[i - 2]);
            }
        }
    }
}

/// Hex text has two characters per byte.
pub proof fn lemma_hex_lower_len(bytes: Seq<u8>)
    ensures
        hex_lower(bytes).len() == 2 * bytes.len(),
{
    lemma_hex_lower_shape(bytes);
}

/// Hex text is ASCII.
pub proof fn lemma_hex_lower_ascii(bytes: Seq<u8>)
    ensures
        vstd::utf8::is_ascii_chars(hex_lower(bytes)),
{
    lemma_hex_lower_shape(bytes);
}

/// A token always verifies against the hash that `hash_token` stores for it.
pub proof fn law_token_verifies_against_own_hash(token: Seq<char>)
    ensures
        token_accepted(token, token_hash_text(token)),
{
}

/// A signature made by `sign_message` is accepted by `verify_signature` for the same key and
/// message.
pub proof fn law_signature_verifies(key: Seq<u8>, message: Seq<u8>)
    ensures
        signature_accepted(key, message, signature_text(key, message)),
{
    let tag = spec_hmac_sha256(key, message);
    let text = hex_lower(tag);
    lemma_hex_lower_shape(tag);
    vstd::utf8::is_ascii_chars_encode_utf8(text);
    assert(vstd::utf8::encode_utf8(text) =~= hex_lower_bytes(tag));
    lemma_hex_roundtrip(tag);
}

} // verus!
