use vstd::prelude::*;

use crate::codec::{b64_of, decode_sealed, encode_sealed, sealed_repr, sealed_wf, SealedSecret};
use crate::errors::CoreError;
use crate::kdf::{derive_key, scrypt_of, valid_log_n, PasswordInput, SALT_LEN};
use crate::seal::{is_sealing_of, seal, unseal, MAX_PLAINTEXT_LEN, NONCE_LEN};
use chacha20poly1305::aead::Generate;
use vstd::utf8::{decode_utf8, encode_utf8, valid_utf8};

verus! {

broadcast use vstd::utf8::encode_utf8_valid_utf8, vstd::utf8::encode_utf8_decode_utf8;

/// The default derivation cost: a work factor of 2^15.
pub const DEFAULT_LOG_N: u8 = 15;

/// The context tag authenticated with every sealed secret: the security
/// classification byte for high-value secrets.
pub const CONTEXT_TAG_HIGH: u8 = 2;

/// The sealed secret `ss` is the sealing of `plaintext` under the key that
/// `password` derives with the salt and cost stored in `ss`, bound to the
/// high-security context tag.
pub open spec fn seals(ss: SealedSecret, password: Seq<u8>, plaintext: Seq<u8>) -> bool {
    is_sealing_of(
        ss.ciphertext@,
        scrypt_of(password, ss.salt@, ss.log_n),
        ss.nonce@,
        CONTEXT_TAG_HIGH,
        plaintext,
    )
}

/// Relies on the Generate impl for [u8; 32] (the system's secure random
/// generator, via getrandom): 32 fresh bytes; nothing is promised of their
/// value, only their count.
#[verifier::external_body]
fn random_salt() -> (r: Result<Vec<u8>, ()>)
    ensures
        r is Ok ==> r->Ok_0@.len() == SALT_LEN,
{
    match <[u8; 32] as Generate>::try_generate() {
        Ok(a) => Ok(a.to_vec()),
        Err(_) => Err(()),
    }
}

/// Relies on the Generate impl for [u8; 24] (the system's secure random
/// generator, via getrandom): 24 fresh bytes; nothing is promised of their
/// value, only their count.
#[verifier::external_body]
fn random_nonce() -> (r: Result<Vec<u8>, ()>)
    ensures
        r is Ok ==> r->Ok_0@.len() == NONCE_LEN,
{
    match <[u8; 24] as Generate>::try_generate() {
        Ok(a) => Ok(a.to_vec()),
        Err(_) => Err(()),
    }
}

/// Relies on String::from_utf8: succeeds exactly on valid UTF-8 input and
/// then returns the string whose encoding the input is.
#[verifier::external_body]
pub(crate) fn bytes_to_string(b: Vec<u8>) -> (r: Result<String, ()>)
    ensures
        r is Ok <==> valid_utf8(b@),
        r is Ok ==> r->Ok_0@ == decode_utf8(b@),
{
    match String::from_utf8(b) {
        Ok(s) => Ok(s),
        Err(_) => Err(()),
    }
}

/// Seals `plaintext` under `password` with a caller-supplied salt, nonce and
/// cost. Succeeds exactly when the salt holds 32 bytes, the nonce 24, the
/// cost is in range and the plaintext is not over the length limit; the
/// resulting sealed secret stores salt, nonce and cost beside the ciphertext.
pub fn seal_secret_with(
    plaintext: &[u8],
    password: &PasswordInput,
    salt: Vec<u8>,
    nonce: Vec<u8>,
    log_n: u8,
) -> (r: Result<SealedSecret, CoreError>)
    ensures
        r is Ok <==> (valid_log_n(log_n) && salt@.len() == SALT_LEN && nonce@.len() == NONCE_LEN
            && plaintext@.len() <= MAX_PLAINTEXT_LEN),
        r is Ok ==> ({
            let ss = r->Ok_0;
            &&& sealed_wf(ss)
            &&& ss.salt@ == salt@
            &&& ss.nonce@ == nonce@
            &&& ss.log_n == log_n
            &&& seals(ss, password.bytes(), plaintext@)
        }),
        r is Err ==> r->Err_0 == CoreError::InvalidParameters,
{
    let key = match derive_key(password, &salt, log_n) {
        Ok(k) => k,
        Err(e) => {
            return Err(e);
        },
    };
    let ciphertext = match seal(plaintext, &key, &nonce, CONTEXT_TAG_HIGH) {
        Ok(c) => c,
        Err(e) => {
            return Err(e);
        },
    };
    Ok(SealedSecret { ciphertext, salt, nonce, log_n })
}

/// Seals `plaintext` under `password` with a fresh random salt and a fresh
/// random nonce, as every seal operation must: reusing a nonce under a fixed
/// key would break the construction. Fails with `InvalidParameters` on a bad
/// cost or over-long plaintext and with `IOFailure` when the system's random
/// generator fails.
pub fn seal_secret(plaintext: &[u8], password: &PasswordInput, log_n: u8) -> (r: Result<
    SealedSecret,
    CoreError,
>)
    ensures
        r is Ok ==> sealed_wf(r->Ok_0) && r->Ok_0.log_n == log_n && seals(
            r->Ok_0,
            password.bytes(),
            plaintext@,
        ),
        !(valid_log_n(log_n) && plaintext@.len() <= MAX_PLAINTEXT_LEN) ==> r is Err,
        r is Err ==> r->Err_0 == CoreError::InvalidParameters || r->Err_0 == CoreError::IOFailure,
{
    let salt = match random_salt() {
        Ok(s) => s,
        Err(_) => {
            return Err(CoreError::IOFailure);
        },
    };
    let nonce = match random_nonce() {
        Ok(n) => n,
        Err(_) => {
            return Err(CoreError::IOFailure);
        },
    };
    seal_secret_with(plaintext, password, salt, nonce, log_n)
}

/// Recovers the plaintext bytes of a sealed secret.
///
/// The first `ensures` clause is the round-trip guarantee: whenever the
/// sealed secret seals some plaintext under this password, unsealing returns
/// exactly that plaintext. The second is the fail-closed guarantee: a
/// successful unseal only ever returns a plaintext that the sealed secret
/// actually seals under this password — a wrong password or a tampered
/// ciphertext can never yield different bytes.
pub fn unseal_secret(ss: &SealedSecret, password: &PasswordInput) -> (r: Result<
    Vec<u8>,
    CoreError,
>)
    ensures
        forall|m: Seq<u8>|
            sealed_wf(*ss) && valid_log_n(ss.log_n) && m.len() <= MAX_PLAINTEXT_LEN
                && #[trigger] seals(*ss, password.bytes(), m) ==> r is Ok && r->Ok_0@ == m,
        r is Ok ==> seals(*ss, password.bytes(), r->Ok_0@),
        !(sealed_wf(*ss) && valid_log_n(ss.log_n)) ==> r == Err::<Vec<u8>, CoreError>(
            CoreError::InvalidParameters,
        ),
        sealed_wf(*ss) && valid_log_n(ss.log_n) && r is Err ==> r->Err_0
            == CoreError::AuthenticationFailure,
{
    if ss.ciphertext.len() < crate::seal::TAG_LEN {
        return Err(CoreError::InvalidParameters);
    }
    let key = match derive_key(password, &ss.salt, ss.log_n) {
        Ok(k) => k,
        Err(_) => {
            return Err(CoreError::InvalidParameters);
        },
    };
    match unseal(&ss.ciphertext, &key, &ss.nonce, CONTEXT_TAG_HIGH) {
        Ok(plaintext) => Ok(plaintext),
        Err(e) => {
            if ss.nonce.len() != NONCE_LEN {
                Err(CoreError::InvalidParameters)
            } else {
                Err(CoreError::AuthenticationFailure)
            }
        },
    }
}

/// Seals `plaintext_data` under `master_password` with the default cost and
/// fresh randomness and returns the printable encoding of the sealed secret,
/// ready for storage.
pub fn encrypt_to_string(plaintext_data: &[u8], master_password: &PasswordInput) -> (r: Result<
    String,
    CoreError,
>)
    ensures
        r is Ok ==> exists|ss: SealedSecret|
            sealed_wf(ss) && ss.log_n == DEFAULT_LOG_N && #[trigger] seals(
                ss,
                master_password.bytes(),
                plaintext_data@,
            ) && r->Ok_0@ == b64_of(sealed_repr(ss)),
        plaintext_data@.len() > MAX_PLAINTEXT_LEN ==> r is Err,
        r is Err ==> r->Err_0 == CoreError::InvalidParameters || r->Err_0 == CoreError::IOFailure,
{
    let ss = match seal_secret(plaintext_data, master_password, DEFAULT_LOG_N) {
        Ok(ss) => ss,
        Err(e) => {
            return Err(e);
        },
    };
    let encoded = encode_sealed(&ss);
    proof {
        assert(seals(ss, master_password.bytes(), plaintext_data@));
    }
    Ok(encoded)
}

/// Recovers the plaintext of a sealed secret as a string.
///
/// The first `ensures` clause is the full round trip: for any sealed secret
/// whose printable encoding this string is, and any string whose UTF-8
/// encoding that secret seals under this password, decryption returns exactly
/// that string. The second is fail-closed: a successful decryption only ever
/// returns a string whose UTF-8 encoding the stored secret actually seals
/// under this password.
pub fn decrypt_password_string(encrypted_payload: &SealedSecret, master_password: &PasswordInput)
    -> (r: Result<String, CoreError>)
    ensures
        forall|m: Seq<char>|
            sealed_wf(*encrypted_payload) && valid_log_n(encrypted_payload.log_n) && encode_utf8(
                m,
            ).len() <= MAX_PLAINTEXT_LEN && #[trigger] seals(
                *encrypted_payload,
                master_password.bytes(),
                encode_utf8(m),
            ) ==> r is Ok && r->Ok_0@ == m,
        r is Ok ==> exists|m: Seq<u8>|
            valid_utf8(m) && #[trigger] seals(*encrypted_payload, master_password.bytes(), m)
                && r->Ok_0@ == decode_utf8(m),
        r is Err ==> r->Err_0 == CoreError::InvalidParameters || r->Err_0
            == CoreError::AuthenticationFailure || r->Err_0 == CoreError::DecodeError,
{
    let decrypted = match unseal_secret(encrypted_payload, master_password) {
        Ok(b) => b,
        Err(e) => {
            return Err(e);
        },
    };
    let ghost decrypted_bytes = decrypted@;
    match bytes_to_string(decrypted) {
        Ok(s) => {
            proof {
                assert(seals(*encrypted_payload, master_password.bytes(), decrypted_bytes));
            }
            Ok(s)
        },
        Err(_) => Err(CoreError::DecodeError),
    }
}

/// Decodes a stored sealed-secret string and recovers its plaintext as a
/// string. The first `ensures` clause is the storage round trip: decrypting
/// the encoding of a sealed secret that seals the UTF-8 encoding of a string
/// under this password returns exactly that string.
pub fn decrypt_from_string(encrypted_base64: &str, master_password: &PasswordInput) -> (r: Result<
    String,
    CoreError,
>)
    ensures
        forall|ss: SealedSecret, m: Seq<char>|
            sealed_wf(ss) && valid_log_n(ss.log_n) && encode_utf8(m).len() <= MAX_PLAINTEXT_LEN
                && encrypted_base64@ == b64_of(sealed_repr(ss)) && #[trigger] seals(
                ss,
                master_password.bytes(),
                encode_utf8(m),
            ) ==> r is Ok && r->Ok_0@ == m,
        r is Ok ==> exists|ss: SealedSecret, m: Seq<u8>|
            sealed_wf(ss) && encrypted_base64@ == b64_of(#[trigger] sealed_repr(ss)) && valid_utf8(
                m,
            ) && #[trigger] seals(ss, master_password.bytes(), m) && r->Ok_0@ == decode_utf8(m),
        r is Err ==> r->Err_0 == CoreError::InvalidParameters || r->Err_0
            == CoreError::AuthenticationFailure || r->Err_0 == CoreError::DecodeError,
{
    let ss = match decode_sealed(encrypted_base64) {
        Ok(ss) => ss,
        Err(e) => {
            return Err(e);
        },
    };
    let r = decrypt_password_string(&ss, master_password);
    proof {
        if r is Ok {
            let m = choose|m: Seq<u8>|
                valid_utf8(m) && #[trigger] seals(ss, master_password.bytes(), m) && r->Ok_0@
                    == decode_utf8(m);
            assert(seals(ss, master_password.bytes(), m));
            assert(sealed_repr(ss) == sealed_repr(ss));
        }
        assert forall|ss2: SealedSecret, m: Seq<char>|
            sealed_wf(ss2) && valid_log_n(ss2.log_n) && encode_utf8(m).len() <= MAX_PLAINTEXT_LEN
                && encrypted_base64@ == b64_of(sealed_repr(ss2)) && #[trigger] seals(
                ss2,
                master_password.bytes(),
                encode_utf8(m),
            ) implies r is Ok && r->Ok_0@ == m by {
            assert(ss.salt@ == ss2.salt@ && ss.nonce@ == ss2.nonce@ && ss.log_n == ss2.log_n
                && ss.ciphertext@ == ss2.ciphertext@);
            assert(seals(ss, master_password.bytes(), encode_utf8(m)));
        }
    }
    r
}

} // verus!
