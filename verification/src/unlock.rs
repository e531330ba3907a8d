use vstd::prelude::*;

use crate::codec::{b64_of, sealed_repr, sealed_wf, SealedSecret};
use crate::encryption::{decrypt_from_string, seals};
use crate::errors::CoreError;
use crate::kdf::{valid_log_n, PasswordInput};
use crate::seal::MAX_PLAINTEXT_LEN;
use vstd::utf8::{decode_utf8, encode_utf8, valid_utf8};

verus! {

/// Where the unlock flow stands after an attempt: the secret is released,
/// a password must be asked for (with the number of attempts that remain),
/// or the flow is over and the error is terminal.
pub enum UnlockStep {
    Unlocked(String),
    PromptPassword(u32),
    Fatal(CoreError),
}

/// The first step of the unlock flow: try the stored sealed secret with the
/// default (absent) password. On success the secret is released without any
/// prompt; on an authentication failure or a malformed payload the flow asks
/// for a password if any attempts were granted; any other error is terminal.
///
/// The first `ensures` clause says the default unlock is complete: a secret
/// sealed under the empty password always unlocks here. The second says it is
/// sound: whatever it releases is a plaintext the stored secret really seals
/// under the empty password.
pub fn start_unlock(encoded_secret: &str, retries: u32) -> (r: UnlockStep)
    ensures
        forall|ss: SealedSecret, m: Seq<char>|
            sealed_wf(ss) && valid_log_n(ss.log_n) && encode_utf8(m).len() <= MAX_PLAINTEXT_LEN
                && encoded_secret@ == b64_of(sealed_repr(ss)) && #[trigger] seals(
                ss,
                Seq::<u8>::empty(),
                encode_utf8(m),
            ) ==> (r matches UnlockStep::Unlocked(secret) && secret@ == m),
        r matches UnlockStep::Unlocked(secret) ==> exists|ss: SealedSecret, m: Seq<u8>|
            sealed_wf(ss) && encoded_secret@ == b64_of(#[trigger] sealed_repr(ss)) && valid_utf8(m)
                && #[trigger] seals(ss, Seq::<u8>::empty(), m) && secret@ == decode_utf8(m),
        r matches UnlockStep::PromptPassword(n) ==> n == retries && retries >= 1,
        retries == 0 ==> !(r is PromptPassword),
{
    let pw = PasswordInput::NoPassword;
    proof {
        assert(pw.bytes() =~= Seq::<u8>::empty());
    }
    match decrypt_from_string(encoded_secret, &pw) {
        Ok(secret) => UnlockStep::Unlocked(secret),
        Err(e) => {
            if (e.is_authentication_failure() || e == CoreError::DecodeError) && retries >= 1 {
                UnlockStep::PromptPassword(retries)
            } else {
                UnlockStep::Fatal(e)
            }
        },
    }
}

/// A later step of the unlock flow: try an interactively supplied password.
/// On success the secret is released; on an authentication failure the flow
/// asks again while attempts remain and is terminal when none do.
///
/// The first two `ensures` clauses are the same completeness and soundness
/// guarantees as for the default attempt, for the supplied password.
pub fn retry_unlock(encoded_secret: &str, password: &PasswordInput, retries_left: u32) -> (r:
    UnlockStep)
    requires
        retries_left >= 1,
    ensures
        forall|ss: SealedSecret, m: Seq<char>|
            sealed_wf(ss) && valid_log_n(ss.log_n) && encode_utf8(m).len() <= MAX_PLAINTEXT_LEN
                && encoded_secret@ == b64_of(sealed_repr(ss)) && #[trigger] seals(
                ss,
                password.bytes(),
                encode_utf8(m),
            ) ==> (r matches UnlockStep::Unlocked(secret) && secret@ == m),
        r matches UnlockStep::Unlocked(secret) ==> exists|ss: SealedSecret, m: Seq<u8>|
            sealed_wf(ss) && encoded_secret@ == b64_of(#[trigger] sealed_repr(ss)) && valid_utf8(m)
                && #[trigger] seals(ss, password.bytes(), m) && secret@ == decode_utf8(m),
        r matches UnlockStep::PromptPassword(n) ==> n + 1 == retries_left,
        retries_left == 1 ==> !(r is PromptPassword),
{
    match decrypt_from_string(encoded_secret, password) {
        Ok(secret) => UnlockStep::Unlocked(secret),
        Err(e) => {
            if (e.is_authentication_failure() || e == CoreError::DecodeError) && retries_left > 1 {
                UnlockStep::PromptPassword(retries_left - 1)
            } else {
                UnlockStep::Fatal(e)
            }
        },
    }
}

} // verus!
