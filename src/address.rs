//! Storage addresses: every stored key is a type tag followed by fixed-size
//! SHA-256 digests, never a concatenation of variable-length strings.
use vstd::prelude::*;
use vstd::utf8::encode_utf8;

verus! {

/// What SHA-256 gives for a byte sequence.
pub uninterp spec fn sha256_of(b: Seq<u8>) -> Seq<u8>;

/// Relies on `near_sdk::env::sha256`: the SHA-256 digest of the bytes, which that
/// function builds from a 32-byte `CryptoHash`.
#[verifier::external_body]
pub(crate) fn sha256(b: &[u8]) -> (r: Vec<u8>)
    ensures
        r@ == sha256_of(b@),
        r@.len() == 32,
{
    near_sdk::env::sha256(b)
}

/// The digest of an identifier's UTF-8 bytes.
pub open spec fn id_hash(s: Seq<char>) -> Seq<u8> {
    sha256_of(encode_utf8(s))
}

/// Type tag of generic-store entries.
pub const APP_TAG: u8 = 97;

/// Type tag of a channel's message sequence.
pub const MESSAGES_TAG: u8 = 109;

/// The generic-store address of `key` in tenant `app_id`.
pub open spec fn storage_address(app_id: Seq<char>, key: Seq<char>) -> Seq<u8> {
    seq![APP_TAG] + id_hash(app_id) + id_hash(key)
}

/// The storage namespace of the messages of the channel with digest `channel_hash`.
pub open spec fn messages_key(channel_hash: Seq<u8>) -> Seq<u8> {
    seq![MESSAGES_TAG] + channel_hash
}

/// Digest of a string's UTF-8 bytes.
pub fn hash_id(s: &String) -> (r: Vec<u8>)
    ensures
        r@ == id_hash(s@),
        r@.len() == 32,
{
    sha256(s.as_str().as_bytes())
}

/// Derives the generic-store address of `key` in tenant `app_id`.
pub fn app_key(app_id: &String, key: &String) -> (r: Vec<u8>)
    ensures
        r@ == storage_address(app_id@, key@),
        r@.len() == 65,
{
    let mut app_id_hash = hash_id(app_id);
    let mut key_hash = hash_id(key);
    let mut res: Vec<u8> = Vec::with_capacity(65);
    res.push(APP_TAG);
    res.append(&mut app_id_hash);
    res.append(&mut key_hash);
    assert(res@ =~= storage_address(app_id@, key@));
    res
}

/// Derives the storage namespace of a channel's messages from the channel's digest.
pub fn messages_key_from_hash(channel_hash: Vec<u8>) -> (r: Vec<u8>)
    ensures
        r@ == messages_key(channel_hash@),
{
    let ghost h = channel_hash@;
    let mut tail = channel_hash;
    let mut res: Vec<u8> = Vec::with_capacity(1);
    res.push(MESSAGES_TAG);
    res.append(&mut tail);
    assert(res@ =~= messages_key(h));
    res
}

} // verus!
