use vstd::prelude::*;

use crate::errors::CoreError;
use crate::kdf::DerivedKey;
use chacha20poly1305::aead::{Aead, KeyInit, Payload};
use chacha20poly1305::{XChaCha20Poly1305, XNonce};

verus! {

/// Length of a sealing nonce, in bytes (the extended 192-bit nonce).
pub const NONCE_LEN: usize = 24;

/// Length of the authentication tag appended to every ciphertext, in bytes.
pub const TAG_LEN: usize = 16;

/// Longest plaintext the sealing primitive accepts. Kept well below the
/// underlying stream cipher's block-count limit, so sealing a plaintext of
/// at most this length always succeeds.
pub const MAX_PLAINTEXT_LEN: usize = 0xFFFF_FFFF;

/// The ciphertext-with-tag that authenticated encryption returns for a given
/// key, nonce, associated data and message. The result depends on the
/// arguments alone.
pub uninterp spec fn seal_of(key: Seq<u8>, nonce: Seq<u8>, aad: Seq<u8>, msg: Seq<u8>) -> Seq<u8>;

/// The associated data bound into the integrity check: a single context tag
/// byte, authenticated but not encrypted.
pub open spec fn context_aad(context_tag: u8) -> Seq<u8> {
    seq![context_tag]
}

/// `ct` is exactly the sealing of `msg` under the given key, nonce and
/// context tag.
pub open spec fn is_sealing_of(
    ct: Seq<u8>,
    key: Seq<u8>,
    nonce: Seq<u8>,
    context_tag: u8,
    msg: Seq<u8>,
) -> bool {
    &&& ct.len() == msg.len() + TAG_LEN
    &&& ct == seal_of(key, nonce, context_aad(context_tag), msg)
}

/// Law: sealing is a function of its inputs, so a ciphertext other than the
/// sealing of `p` can only ever be the sealing of plaintexts different from
/// `p`. Together with the fail-closed clause of `unseal` this says that
/// tampering with a sealed payload can never make it unseal to the original
/// plaintext, and a wrong key can never yield the plaintext of another key's
/// sealing as its own.
pub proof fn lemma_other_ciphertext_other_plaintext(
    ct: Seq<u8>,
    ct2: Seq<u8>,
    key: Seq<u8>,
    nonce: Seq<u8>,
    context_tag: u8,
    p: Seq<u8>,
    m: Seq<u8>,
)
    requires
        is_sealing_of(ct, key, nonce, context_tag, p),
        is_sealing_of(ct2, key, nonce, context_tag, m),
        ct2 != ct,
    ensures
        m != p,
{
}

/// Relies on XChaCha20Poly1305 (KeyInit::new_from_slice, Aead::encrypt): with
/// a 32-byte key, a 24-byte nonce and a message below the block-count limit,
/// encryption succeeds, appends a 16-byte tag to the ciphertext, and its
/// output is a deterministic function of key, nonce, associated data and
/// message.
#[verifier::external_body]
fn aead_seal(key: &Vec<u8>, nonce: &Vec<u8>, context_tag: u8, msg: &[u8]) -> (r: Vec<u8>)
    requires
        key@.len() == 32,
        nonce@.len() == NONCE_LEN,
        msg@.len() <= MAX_PLAINTEXT_LEN,
    ensures
        r@ == seal_of(key@, nonce@, context_aad(context_tag), msg@),
        r@.len() == msg@.len() + TAG_LEN,
{
    let cipher = XChaCha20Poly1305::new_from_slice(key.as_slice()).expect("32-byte key");
    let mut nonce_bytes = [0u8; 24];
    nonce_bytes.copy_from_slice(nonce.as_slice());
    let nonce_obj = XNonce::from(nonce_bytes);
    let aad = [context_tag];
    let payload = Payload { msg, aad: &aad };
    cipher.encrypt(&nonce_obj, payload).expect("message within AEAD limits")
}

/// Relies on XChaCha20Poly1305 (Aead::decrypt): decryption verifies the
/// authentication tag and fails closed, never returning partially decrypted
/// data. When it succeeds, the input is exactly the sealing of the returned
/// plaintext under the same key, nonce and associated data; and decrypting
/// the sealing of a message under the same key, nonce and associated data
/// returns that message.
#[verifier::external_body]
fn aead_open(key: &Vec<u8>, nonce: &Vec<u8>, context_tag: u8, ct: &Vec<u8>) -> (r: Result<
    Vec<u8>,
    (),
>)
    requires
        key@.len() == 32,
        nonce@.len() == NONCE_LEN,
    ensures
        r is Ok ==> is_sealing_of(ct@, key@, nonce@, context_tag, r->Ok_0@),
        forall|m: Seq<u8>|
            m.len() <= MAX_PLAINTEXT_LEN && #[trigger] is_sealing_of(
                ct@,
                key@,
                nonce@,
                context_tag,
                m,
            ) ==> r is Ok && r->Ok_0@ == m,
{
    let cipher = XChaCha20Poly1305::new_from_slice(key.as_slice()).expect("32-byte key");
    let mut nonce_bytes = [0u8; 24];
    nonce_bytes.copy_from_slice(nonce.as_slice());
    let nonce_obj = XNonce::from(nonce_bytes);
    let aad = [context_tag];
    let payload = Payload { msg: ct.as_slice(), aad: &aad };
    match cipher.decrypt(&nonce_obj, payload) {
        Ok(plaintext) => Ok(plaintext),
        Err(_) => Err(()),
    }
}

/// Encrypts `plaintext` under `key` with integrity protection, binding the
/// context tag into the integrity check. Succeeds exactly when the key and
/// nonce are well-formed and the plaintext is not over the length limit, and
/// then returns precisely the sealing of the plaintext.
pub fn seal(plaintext: &[u8], key: &DerivedKey, nonce: &Vec<u8>, context_tag: u8) -> (r: Result<
    Vec<u8>,
    CoreError,
>)
    requires
        key.wf(),
    ensures
        r is Ok <==> (nonce@.len() == NONCE_LEN && plaintext@.len() <= MAX_PLAINTEXT_LEN),
        r is Ok ==> is_sealing_of(r->Ok_0@, key@, nonce@, context_tag, plaintext@),
        r is Err ==> r->Err_0 == CoreError::InvalidParameters,
{
    if nonce.len() == NONCE_LEN && plaintext.len() <= MAX_PLAINTEXT_LEN {
        Ok(aead_seal(key.as_bytes(), nonce, context_tag, plaintext))
    } else {
        Err(CoreError::InvalidParameters)
    }
}

/// Decrypts a sealed payload, verifying its integrity.
///
/// The second `ensures` clause is the round-trip guarantee: whenever the
/// ciphertext is the sealing of some plaintext under the same key, nonce and
/// context tag, unsealing returns exactly that plaintext. The first clause is
/// the fail-closed guarantee: a successful unseal only ever returns the
/// plaintext whose sealing the ciphertext is — never different bytes from a
/// tampered or foreign ciphertext.
pub fn unseal(ciphertext: &Vec<u8>, key: &DerivedKey, nonce: &Vec<u8>, context_tag: u8) -> (r:
    Result<Vec<u8>, CoreError>)
    requires
        key.wf(),
    ensures
        r is Ok ==> nonce@.len() == NONCE_LEN && is_sealing_of(
            ciphertext@,
            key@,
            nonce@,
            context_tag,
            r->Ok_0@,
        ),
        forall|m: Seq<u8>|
            nonce@.len() == NONCE_LEN && m.len() <= MAX_PLAINTEXT_LEN
                && #[trigger] is_sealing_of(ciphertext@, key@, nonce@, context_tag, m) ==> r is Ok
                && r->Ok_0@ == m,
        nonce@.len() != NONCE_LEN ==> r == Err::<Vec<u8>, CoreError>(CoreError::InvalidParameters),
        nonce@.len() == NONCE_LEN && r is Err ==> r->Err_0 == CoreError::AuthenticationFailure,
{
    if nonce.len() == NONCE_LEN {
        match aead_open(key.as_bytes(), nonce, context_tag, ciphertext) {
            Ok(plaintext) => Ok(plaintext),
            Err(_) => Err(CoreError::AuthenticationFailure),
        }
    } else {
        Err(CoreError::InvalidParameters)
    }
}

} // verus!
