use vstd::prelude::*;

use crate::errors::CoreError;
use crate::kdf::SALT_LEN;
use crate::seal::{NONCE_LEN, TAG_LEN};
use base64::engine::general_purpose::STANDARD;
use base64::Engine;

verus! {

/// The at-rest, encrypted-and-authenticated representation of a secret:
/// the ciphertext with its tag, together with everything unsealing needs —
/// the key-derivation salt, the sealing nonce and the derivation cost
/// (log2 of the work factor). Salt and nonce are generated fresh for each
/// seal operation and travel with the ciphertext.
#[derive(Clone, Debug, PartialEq, Eq)]
pub struct SealedSecret {
    pub ciphertext: Vec<u8>,
    pub salt: Vec<u8>,
    pub nonce: Vec<u8>,
    pub log_n: u8,
}

/// A well-formed sealed secret: 32-byte salt, 24-byte nonce, and a
/// ciphertext long enough to hold the authentication tag.
pub open spec fn sealed_wf(ss: SealedSecret) -> bool {
    &&& ss.salt@.len() == SALT_LEN
    &&& ss.nonce@.len() == NONCE_LEN
    &&& ss.ciphertext@.len() >= TAG_LEN
}

/// The self-contained binary layout of a sealed secret: salt, then nonce,
/// then the cost byte, then the ciphertext.
pub open spec fn sealed_repr(ss: SealedSecret) -> Seq<u8> {
    ss.salt@ + ss.nonce@ + seq![ss.log_n] + ss.ciphertext@
}

/// The text that the standard base64 encoding produces for given bytes.
/// The result depends on the input bytes alone.
pub uninterp spec fn b64_of(b: Seq<u8>) -> Seq<char>;

/// Relies on base64's standard engine (Engine::encode, padded standard
/// alphabet): encoding is a deterministic function of the input bytes.
#[verifier::external_body]
fn b64_encode(b: &Vec<u8>) -> (r: String)
    ensures
        r@ == b64_of(b@),
{
    STANDARD.encode(b.as_slice())
}

/// Relies on base64's standard engine (Engine::decode): with canonical
/// padding required and trailing bits rejected, decoding succeeds exactly on
/// canonical encodings and inverts Engine::encode.
#[verifier::external_body]
fn b64_decode(s: &str) -> (r: Result<Vec<u8>, ()>)
    ensures
        r is Ok ==> s@ == b64_of(r->Ok_0@),
        forall|b: Seq<u8>| s@ == #[trigger] b64_of(b) ==> r is Ok && r->Ok_0@ == b,
{
    match STANDARD.decode(s) {
        Ok(v) => Ok(v),
        Err(_) => Err(()),
    }
}

/// Appends all of `src` to `dst`.
pub fn append_bytes(dst: &mut Vec<u8>, src: &Vec<u8>)
    ensures
        final(dst)@ == old(dst)@ + src@,
{
    let mut i: usize = 0;
    while i < src.len()
        invariant
            i <= src@.len(),
            dst@ == old(dst)@ + src@.subrange(0, i as int),
        decreases src@.len() - i,
    {
        let b = src[i];
        dst.push(b);
        proof {
            assert(src@.subrange(0, i + 1 as int) =~= src@.subrange(0, i as int).push(
                src@[i as int],
            ));
        }
        i += 1;
    }
    proof {
        assert(old(dst)@ + src@.subrange(0, src@.len() as int) =~= old(dst)@ + src@);
    }
}

/// Copies `src[from..to]` into a fresh vector.
fn sub_vec(src: &Vec<u8>, from: usize, to: usize) -> (r: Vec<u8>)
    requires
        from <= to <= src@.len(),
    ensures
        r@ == src@.subrange(from as int, to as int),
{
    let mut r: Vec<u8> = Vec::new();
    let mut i: usize = from;
    while i < to
        invariant
            from <= i <= to <= src@.len(),
            r@ == src@.subrange(from as int, i as int),
        decreases to - i,
    {
        let b = src[i];
        r.push(b);
        proof {
            assert(src@.subrange(from as int, i + 1 as int) =~= src@.subrange(
                from as int,
                i as int,
            ).push(src@[i as int]));
        }
        i += 1;
    }
    r
}

/// Converts a well-formed sealed secret to a printable, transport-safe
/// string: the base64 encoding of its self-contained binary layout.
pub fn encode_sealed(ss: &SealedSecret) -> (r: String)
    requires
        sealed_wf(*ss),
    ensures
        r@ == b64_of(sealed_repr(*ss)),
{
    let mut bytes: Vec<u8> = Vec::new();
    append_bytes(&mut bytes, &ss.salt);
    append_bytes(&mut bytes, &ss.nonce);
    bytes.push(ss.log_n);
    append_bytes(&mut bytes, &ss.ciphertext);
    proof {
        assert(bytes@ =~= sealed_repr(*ss));
    }
    b64_encode(&bytes)
}

/// Reconstructs a sealed secret from its printable encoding. Returns
/// `DecodeError` on malformed input: text that is not canonical base64, or a
/// payload too short to hold salt, nonce, cost and a tagged ciphertext.
/// The second `ensures` clause is the codec round trip: decoding the encoding
/// of any well-formed sealed secret yields it back exactly.
pub fn decode_sealed(s: &str) -> (r: Result<SealedSecret, CoreError>)
    ensures
        r is Ok ==> sealed_wf(r->Ok_0) && s@ == b64_of(sealed_repr(r->Ok_0)),
        forall|ss: SealedSecret|
            sealed_wf(ss) && s@ == b64_of(#[trigger] sealed_repr(ss)) ==> r is Ok
                && r->Ok_0.salt@ == ss.salt@ && r->Ok_0.nonce@ == ss.nonce@ && r->Ok_0.log_n
                == ss.log_n && r->Ok_0.ciphertext@ == ss.ciphertext@,
        r is Err ==> r->Err_0 == CoreError::DecodeError,
{
    let decoded = match b64_decode(s) {
        Ok(v) => v,
        Err(_) => {
            proof {
                assert forall|ss: SealedSecret|
                    sealed_wf(ss) && s@ == b64_of(#[trigger] sealed_repr(ss)) implies false by {}
            }
            return Err(CoreError::DecodeError);
        },
    };
    if decoded.len() < SALT_LEN + NONCE_LEN + 1 + TAG_LEN {
        proof {
            assert forall|ss: SealedSecret|
                sealed_wf(ss) && s@ == b64_of(#[trigger] sealed_repr(ss)) implies false by {
                assert(decoded@ == sealed_repr(ss));
            }
        }
        return Err(CoreError::DecodeError);
    }
    let salt = sub_vec(&decoded, 0, SALT_LEN);
    let nonce = sub_vec(&decoded, SALT_LEN, SALT_LEN + NONCE_LEN);
    let log_n = decoded[SALT_LEN + NONCE_LEN];
    let ciphertext = sub_vec(&decoded, SALT_LEN + NONCE_LEN + 1, decoded.len());
    let out = SealedSecret { ciphertext, salt, nonce, log_n };
    proof {
        assert(decoded@ =~= sealed_repr(out));
        assert forall|ss: SealedSecret|
            sealed_wf(ss) && s@ == b64_of(#[trigger] sealed_repr(ss)) implies out.salt@ == ss.salt@
            && out.nonce@ == ss.nonce@ && out.log_n == ss.log_n && out.ciphertext@
            == ss.ciphertext@ by {
            assert(decoded@ == sealed_repr(ss));
            assert(out.salt@ =~= ss.salt@);
            assert(out.nonce@ =~= ss.nonce@);
            assert(out.ciphertext@ =~= ss.ciphertext@);
            assert(seq![out.log_n][0] == seq![ss.log_n][0]);
        }
    }
    Ok(out)
}

} // verus!
