use vstd::prelude::*;

use crate::errors::CoreError;

verus! {

/// A password handed to key derivation. An absent password is an explicit
/// variant rather than a nullable parameter, so that call sites cannot
/// conflate "no password supplied" with an empty password by accident;
/// both derive the same key, which `bytes` makes precise.
pub enum PasswordInput {
    NoPassword,
    Password(Vec<u8>),
}

impl PasswordInput {
    /// The byte sequence that key derivation consumes: an absent password
    /// is treated as the empty byte sequence, not as an error.
    pub open spec fn bytes(&self) -> Seq<u8> {
        match self {
            PasswordInput::NoPassword => Seq::<u8>::empty(),
            PasswordInput::Password(b) => b@,
        }
    }
}

/// The 32-byte symmetric key produced by key derivation. Held only
/// transiently during a seal or unseal operation and never persisted.
pub struct DerivedKey {
    key: Vec<u8>,
}

impl View for DerivedKey {
    type V = Seq<u8>;

    closed spec fn view(&self) -> Seq<u8> {
        self.key@
    }
}

impl DerivedKey {
    /// Every derived key holds exactly 32 bytes.
    pub open spec fn wf(&self) -> bool {
        self@.len() == 32
    }

    /// The raw key bytes, for handing to the sealing primitive.
    pub fn as_bytes(&self) -> (r: &Vec<u8>)
        ensures
            r@ == self@,
    {
        &self.key
    }
}

/// Length of a key-derivation salt, in bytes.
pub const SALT_LEN: usize = 32;

/// The derivation cost accepted by the underlying function: the work factor
/// is 2^log_n, and with block size 8 and parallelism 1 the parameter
/// construction succeeds exactly for log_n below 54 on a 64-bit machine.
pub open spec fn valid_log_n(log_n: u8) -> bool {
    log_n < 54
}

/// The key that the memory-hard derivation function returns for given
/// password bytes, salt and cost, with block size 8, parallelism 1 and a
/// 32-byte output. The result depends on the arguments alone.
pub uninterp spec fn scrypt_of(password: Seq<u8>, salt: Seq<u8>, log_n: u8) -> Seq<u8>;

/// Relies on scrypt::Params::new and scrypt::scrypt (r = 8, p = 1, 32-byte
/// output): parameter construction succeeds for log_n < 54 on a 64-bit
/// machine, and the derived key is a deterministic function of password,
/// salt and cost.
#[verifier::external_body]
fn scrypt_derive(password: &PasswordInput, salt: &Vec<u8>, log_n: u8) -> (r: Vec<u8>)
    requires
        valid_log_n(log_n),
    ensures
        r@ == scrypt_of(password.bytes(), salt@, log_n),
        r@.len() == 32,
{
    let params = scrypt::Params::new(log_n, 8, 1).expect("cost validated by caller");
    let pw: &[u8] = match password {
        PasswordInput::NoPassword => b"",
        PasswordInput::Password(b) => b.as_slice(),
    };
    let mut key = [0u8; 32];
    scrypt::scrypt(pw, salt.as_slice(), &params, &mut key).expect("32-byte output is valid");
    key.to_vec()
}

/// Turns a (possibly absent) password and a 32-byte salt into a 32-byte
/// symmetric key. Fails with `InvalidParameters` exactly when the cost is
/// out of range or the salt does not hold 32 bytes.
pub fn derive_key(password: &PasswordInput, salt: &Vec<u8>, log_n: u8) -> (r: Result<
    DerivedKey,
    CoreError,
>)
    ensures
        r is Ok <==> (valid_log_n(log_n) && salt@.len() == SALT_LEN),
        r is Ok ==> r->Ok_0.wf() && r->Ok_0@ == scrypt_of(password.bytes(), salt@, log_n),
        r is Err ==> r->Err_0 == CoreError::InvalidParameters,
{
    if log_n < 54 && salt.len() == SALT_LEN {
        Ok(DerivedKey { key: scrypt_derive(password, salt, log_n) })
    } else {
        Err(CoreError::InvalidParameters)
    }
}

/// Law: key derivation is deterministic. Two derivations from equal
/// password bytes, equal salts and equal costs yield identical keys.
pub proof fn lemma_derive_deterministic(
    pw1: Seq<u8>,
    pw2: Seq<u8>,
    salt1: Seq<u8>,
    salt2: Seq<u8>,
    log_n1: u8,
    log_n2: u8,
)
    requires
        pw1 == pw2,
        salt1 == salt2,
        log_n1 == log_n2,
    ensures
        scrypt_of(pw1, salt1, log_n1) == scrypt_of(pw2, salt2, log_n2),
{
}

/// Law: an absent password derives the same key as an explicit empty one.
pub proof fn lemma_absent_password_is_empty(p: PasswordInput, q: PasswordInput)
    requires
        p is NoPassword,
        q matches PasswordInput::Password(b) && b@.len() == 0,
    ensures
        p.bytes() == q.bytes(),
{
    assert(p.bytes() =~= q.bytes());
}

} // verus!
