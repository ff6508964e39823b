//! The cipher engine: a symmetric XOR stream keyed per account, framed with
//! the owning account's 20-byte identifier so that ciphertext is bound to
//! its creator.
//!
//! The cipher is deliberately weak (an XOR stream under an
//! operator-controlled key); the point proved here is the framing and key
//! derivation discipline, not cryptographic strength.

use vstd::prelude::*;
use vstd::slice::slice_to_vec;
use vstd::utf8::{decode_utf8, encode_utf8, valid_utf8};
use crate::types::Address;

verus! {

/// XOR byte `i` of `data` with byte `i mod key.len()` of `key`.
pub open spec fn xor_stream(data: Seq<u8>, key: Seq<u8>) -> Seq<u8>
    recommends
        key.len() > 0,
{
    Seq::new(data.len(), |i: int| data[i] ^ key[i % (key.len() as int)])
}

/// The key actually used for an account: its stored key if one is set and
/// non-empty, else the account's own 20-byte identifier.
pub open spec fn effective_key(caller: Seq<u8>, stored: Seq<u8>) -> Seq<u8> {
    if stored.len() == 0 {
        caller
    } else {
        stored
    }
}

/// Ciphertext layout: the caller's identifier, then the XOR-stream body.
pub open spec fn spec_encrypt(caller: Seq<u8>, stored: Seq<u8>, plain: Seq<u8>) -> Seq<u8> {
    caller + xor_stream(plain, effective_key(caller, stored))
}

/// The byte stream recovered from a ciphertext body (everything past the
/// 20-byte owner prefix).
pub open spec fn recovered_body(caller: Seq<u8>, stored: Seq<u8>, c: Seq<u8>) -> Seq<u8> {
    xor_stream(c.skip(20), effective_key(caller, stored))
}

/// Sentinel returned when a ciphertext is shorter than the owner prefix.
pub open spec fn invalid_format_msg() -> Seq<char> {
    "Error: Invalid data format"@
}

/// Sentinel returned when the owner prefix names another account.
pub open spec fn permission_msg() -> Seq<char> {
    "Error: You don't have permission to decrypt this note"@
}

/// Sentinel returned when the recovered bytes are not valid UTF-8.
pub open spec fn decrypt_failed_msg() -> Seq<char> {
    "Error: Decryption failed"@
}

/// What decryption returns, for every input: one of the three sentinel
/// texts, or the decoded plaintext.
pub open spec fn spec_decrypt_str(caller: Seq<u8>, stored: Seq<u8>, c: Seq<u8>) -> Seq<char> {
    if c.len() < 20 {
        invalid_format_msg()
    } else if c.take(20) != caller {
        permission_msg()
    } else if valid_utf8(recovered_body(caller, stored, c)) {
        decode_utf8(recovered_body(caller, stored, c))
    } else {
        decrypt_failed_msg()
    }
}

/// Relies on `String::from_utf8`: returns the string whose UTF-8 encoding is
/// exactly `bytes` when `bytes` is valid UTF-8, and nothing otherwise.
#[verifier::external_body]
fn bytes_to_string(bytes: Vec<u8>) -> (r: Option<String>)
    ensures
        r matches Some(s) ==> valid_utf8(bytes@) && s@ == decode_utf8(bytes@),
        r is None ==> !valid_utf8(bytes@),
{
    match String::from_utf8(bytes) {
        Ok(s) => Some(s),
        Err(_) => None,
    }
}

/// Apply the XOR stream to `data` under `key`.
pub fn xor_with_key(data: &[u8], key: &Vec<u8>) -> (r: Vec<u8>)
    requires
        key@.len() > 0,
    ensures
        r@ == xor_stream(data@, key@),
{
    let mut r: Vec<u8> = Vec::new();
    let mut i: usize = 0;
    while i < data.len()
        invariant
            key@.len() > 0,
            i <= data@.len(),
            r@.len() == i,
            forall|j: int| 0 <= j < i ==> r@[j] == data@[j] ^ key@[j % (key@.len() as int)],
        decreases data@.len() - i,
    {
        let b = data[i] ^ key[i % key.len()];
        r.push(b);
        i = i + 1;
    }
    proof {
        assert(r@ =~= xor_stream(data@, key@));
    }
    r
}

/// The effective key as executable bytes.
fn effective_key_bytes(caller: &Address, stored_key: &Vec<u8>) -> (r: Vec<u8>)
    requires
        caller.wf(),
    ensures
        r@ == effective_key(caller@, stored_key@),
        r@.len() > 0,
{
    if stored_key.len() == 0 {
        slice_to_vec(caller.bytes.as_slice())
    } else {
        slice_to_vec(stored_key.as_slice())
    }
}

/// Encrypt `plaintext` for `caller` under the caller's stored key (empty
/// meaning none): prepend the caller's identifier, then XOR the UTF-8 bytes.
pub fn encrypt_with(caller: &Address, stored_key: &Vec<u8>, plaintext: &str) -> (r: Vec<u8>)
    requires
        caller.wf(),
    ensures
        r@ == spec_encrypt(caller@, stored_key@, encode_utf8(plaintext@)),
        r@.len() >= 20,
{
    let key = effective_key_bytes(caller, stored_key);
    let mut r = slice_to_vec(caller.bytes.as_slice());
    let mut body = xor_with_key(plaintext.as_bytes(), &key);
    r.append(&mut body);
    proof {
        assert(r@ =~= spec_encrypt(caller@, stored_key@, encode_utf8(plaintext@)));
    }
    r
}

/// True when the first 20 bytes of `c` are exactly `a`'s identifier.
fn prefix_matches(c: &[u8], a: &Address) -> (r: bool)
    requires
        c@.len() >= 20,
        a.wf(),
    ensures
        r == (c@.take(20) == a@),
{
    let mut i: usize = 0;
    while i < 20
        invariant
            c@.len() >= 20,
            a@.len() == 20,
            i <= 20,
            forall|j: int| 0 <= j < i ==> c@[j] == a@[j],
        decreases 20 - i,
    {
        if c[i] != a.bytes[i] {
            proof {
                assert(c@.take(20)[i as int] != a@[i as int]);
            }
            return false;
        }
        i = i + 1;
    }
    proof {
        assert(c@.take(20) =~= a@);
    }
    true
}

/// Decrypt `ciphertext` for `caller` under the caller's stored key.
///
/// Never fails: structurally invalid or foreign ciphertext and non-UTF-8
/// plaintext each yield their sentinel text instead.
pub fn decrypt_with(caller: &Address, stored_key: &Vec<u8>, ciphertext: &[u8]) -> (r: String)
    requires
        caller.wf(),
    ensures
        r@ == spec_decrypt_str(caller@, stored_key@, ciphertext@),
{
    if ciphertext.len() < 20 {
        return "Error: Invalid data format".to_owned();
    }
    if !prefix_matches(ciphertext, caller) {
        return "Error: You don't have permission to decrypt this note".to_owned();
    }
    let key = effective_key_bytes(caller, stored_key);
    let body = vstd::slice::slice_subrange(ciphertext, 20, ciphertext.len());
    proof {
        assert(body@ == ciphertext@.skip(20));
    }
    let plain = xor_with_key(body, &key);
    match bytes_to_string(plain) {
        Some(s) => s,
        None => "Error: Decryption failed".to_owned(),
    }
}

/// Round trip: decrypting a ciphertext produced by encryption for the same
/// caller under the same stored-key state recovers the original text, for
/// any text and any key state (custom key, empty key, or none).
pub proof fn lemma_encrypt_decrypt_roundtrip(caller: Seq<u8>, stored: Seq<u8>, text: Seq<char>)
    requires
        caller.len() == 20,
    ensures
        spec_decrypt_str(caller, stored, spec_encrypt(caller, stored, encode_utf8(text))) == text,
{
    broadcast use vstd::utf8::encode_utf8_valid_utf8, vstd::utf8::encode_utf8_decode_utf8;

    let plain = encode_utf8(text);
    let key = effective_key(caller, stored);
    let c = spec_encrypt(caller, stored, plain);
    assert(c.take(20) =~= caller);
    assert(c.skip(20) =~= xor_stream(plain, key));
    lemma_xor_stream_involutive(plain, key);
    assert(recovered_body(caller, stored, c) == plain);
}

/// Cross-owner decryption always fails: a ciphertext framed for one account
/// yields the permission sentinel for any other account, whatever either
/// account's key state is.
pub proof fn lemma_cross_owner_decrypt_denied(
    owner: Seq<u8>,
    owner_key: Seq<u8>,
    other: Seq<u8>,
    other_key: Seq<u8>,
    plain: Seq<u8>,
)
    requires
        owner.len() == 20,
        other != owner,
    ensures
        spec_decrypt_str(other, other_key, spec_encrypt(owner, owner_key, plain))
            == permission_msg(),
{
    let c = spec_encrypt(owner, owner_key, plain);
    assert(c.take(20) =~= owner);
}

/// Applying the XOR stream twice under the same key is the identity.
pub proof fn lemma_xor_stream_involutive(data: Seq<u8>, key: Seq<u8>)
    requires
        key.len() > 0,
    ensures
        xor_stream(xor_stream(data, key), key) == data,
{
    let once = xor_stream(data, key);
    let twice = xor_stream(once, key);
    assert forall|i: int| 0 <= i < data.len() implies twice[i] == data[i] by {
        let k = key[i % (key.len() as int)];
        let d = data[i];
        assert((d ^ k) ^ k == d) by (bit_vector);
    }
    assert(twice =~= data);
}

} // verus!
