use ardo::codec::{decode_sealed, encode_sealed, SealedSecret};
use ardo::encryption::{
    decrypt_from_string, decrypt_password_string, encrypt_to_string, seal_secret, seal_secret_with,
    unseal_secret,
};
use ardo::errors::CoreError;
use ardo::kdf::{derive_key, PasswordInput};
use base64::engine::general_purpose::STANDARD;
use base64::Engine;

const TEST_LOG_N: u8 = 4;

fn password(s: &str) -> PasswordInput {
    PasswordInput::Password(s.as_bytes().to_vec())
}

fn test_salt() -> Vec<u8> {
    (0u8..32).collect()
}

fn test_nonce() -> Vec<u8> {
    (100u8..124).collect()
}

#[test]
fn seal_unseal_round_trip() {
    let plaintext = b"correct horse battery staple".to_vec();
    let ss = seal_secret_with(&plaintext, &password("hunter2"), test_salt(), test_nonce(), TEST_LOG_N)
        .expect("sealing with valid parameters succeeds");
    let recovered = unseal_secret(&ss, &password("hunter2")).expect("round trip succeeds");
    assert_eq!(recovered, plaintext);
}

#[test]
fn absent_password_equals_empty_password() {
    let plaintext = b"secret".to_vec();
    let ss = seal_secret_with(&plaintext, &PasswordInput::NoPassword, test_salt(), test_nonce(), TEST_LOG_N)
        .expect("sealing succeeds");
    let with_empty = unseal_secret(&ss, &PasswordInput::Password(Vec::new()))
        .expect("empty password derives the same key as an absent one");
    assert_eq!(with_empty, plaintext);
    let with_absent = unseal_secret(&ss, &PasswordInput::NoPassword).expect("absent password unseals");
    assert_eq!(with_absent, plaintext);
}

#[test]
fn string_round_trip_default_cost() {
    let encoded = encrypt_to_string(b"my secret phrase", &password("hunter2"))
        .expect("encryption succeeds");
    let recovered = decrypt_from_string(&encoded, &password("hunter2")).expect("round trip succeeds");
    assert_eq!(recovered, "my secret phrase");
}

#[test]
fn wrong_password_fails_closed() {
    let plaintext = b"payload".to_vec();
    let ss = seal_secret_with(&plaintext, &password("alpha"), test_salt(), test_nonce(), TEST_LOG_N)
        .expect("sealing succeeds");
    let r = unseal_secret(&ss, &password("beta"));
    assert_eq!(r, Err(CoreError::AuthenticationFailure));
}

#[test]
fn derivation_is_deterministic() {
    let plaintext = b"payload".to_vec();
    let a = seal_secret_with(&plaintext, &password("w"), test_salt(), test_nonce(), TEST_LOG_N)
        .expect("sealing succeeds");
    let b = seal_secret_with(&plaintext, &password("w"), test_salt(), test_nonce(), TEST_LOG_N)
        .expect("sealing succeeds");
    assert_eq!(a, b);
}

#[test]
fn derivation_depends_on_password_salt_and_cost() {
    let plaintext = b"payload".to_vec();
    let base = seal_secret_with(&plaintext, &password("w"), test_salt(), test_nonce(), TEST_LOG_N)
        .expect("sealing succeeds");
    let other_password =
        seal_secret_with(&plaintext, &password("x"), test_salt(), test_nonce(), TEST_LOG_N)
            .expect("sealing succeeds");
    assert_ne!(base.ciphertext, other_password.ciphertext);
    let mut other_salt = test_salt();
    other_salt[0] = other_salt[0].wrapping_add(1);
    let with_other_salt =
        seal_secret_with(&plaintext, &password("w"), other_salt, test_nonce(), TEST_LOG_N)
            .expect("sealing succeeds");
    assert_ne!(base.ciphertext, with_other_salt.ciphertext);
    let with_other_cost =
        seal_secret_with(&plaintext, &password("w"), test_salt(), test_nonce(), TEST_LOG_N + 1)
            .expect("sealing succeeds");
    assert_ne!(base.ciphertext, with_other_cost.ciphertext);
}

#[test]
fn tampered_ciphertext_fails_closed() {
    let plaintext = b"payload".to_vec();
    let ss = seal_secret_with(&plaintext, &password("w"), test_salt(), test_nonce(), TEST_LOG_N)
        .expect("sealing succeeds");
    let mut tampered_body = ss.clone();
    tampered_body.ciphertext[0] ^= 0x01;
    assert_eq!(
        unseal_secret(&tampered_body, &password("w")),
        Err(CoreError::AuthenticationFailure)
    );
    let mut tampered_tag = ss.clone();
    let last: usize = tampered_tag.ciphertext.len() - 1;
    tampered_tag.ciphertext[last] ^= 0x80;
    assert_eq!(
        unseal_secret(&tampered_tag, &password("w")),
        Err(CoreError::AuthenticationFailure)
    );
}

#[test]
fn ciphertext_carries_tag_and_differs_from_plaintext() {
    let plaintext = b"sixteen byte msg".to_vec();
    let ss = seal_secret_with(&plaintext, &password("w"), test_salt(), test_nonce(), TEST_LOG_N)
        .expect("sealing succeeds");
    assert_eq!(ss.ciphertext.len(), plaintext.len() + 16);
    assert_ne!(&ss.ciphertext[..plaintext.len()], plaintext.as_slice());
}

#[test]
fn fresh_randomness_per_seal() {
    let a = seal_secret(b"payload", &password("w"), TEST_LOG_N).expect("sealing succeeds");
    let b = seal_secret(b"payload", &password("w"), TEST_LOG_N).expect("sealing succeeds");
    assert_ne!(a.salt, b.salt);
    assert_ne!(a.nonce, b.nonce);
    assert_ne!(a.ciphertext, b.ciphertext);
}

#[test]
fn out_of_range_cost_is_invalid_parameters() {
    assert!(matches!(
        derive_key(&password("w"), &test_salt(), 54),
        Err(CoreError::InvalidParameters)
    ));
    assert!(matches!(
        seal_secret_with(b"p", &password("w"), test_salt(), test_nonce(), 60),
        Err(CoreError::InvalidParameters)
    ));
}

#[test]
fn wrong_salt_length_is_invalid_parameters() {
    let short_salt = vec![0u8; 31];
    assert!(matches!(
        derive_key(&password("w"), &short_salt, TEST_LOG_N),
        Err(CoreError::InvalidParameters)
    ));
    assert!(matches!(
        seal_secret_with(b"p", &password("w"), vec![0u8; 31], test_nonce(), TEST_LOG_N),
        Err(CoreError::InvalidParameters)
    ));
}

#[test]
fn in_range_cost_derives_key() {
    assert!(derive_key(&password("w"), &test_salt(), 1).is_ok());
    assert!(derive_key(&PasswordInput::NoPassword, &test_salt(), 1).is_ok());
}

#[test]
fn stored_cost_out_of_range_is_invalid_parameters() {
    let ss = SealedSecret {
        ciphertext: vec![0u8; 20],
        salt: test_salt(),
        nonce: test_nonce(),
        log_n: 54,
    };
    assert_eq!(
        unseal_secret(&ss, &password("w")),
        Err(CoreError::InvalidParameters)
    );
}

#[test]
fn codec_round_trip() {
    let ss = SealedSecret {
        ciphertext: (0u8..40).collect(),
        salt: test_salt(),
        nonce: test_nonce(),
        log_n: 15,
    };
    let encoded = encode_sealed(&ss);
    let decoded = decode_sealed(&encoded).expect("decoding its own encoding succeeds");
    assert_eq!(decoded, ss);
}

#[test]
fn codec_rejects_malformed_text() {
    assert_eq!(decode_sealed("not base64 at all!!!"), Err(CoreError::DecodeError));
    // valid base64, but far too short for salt, nonce, cost and a tagged ciphertext
    let short = STANDARD.encode([0u8; 10]);
    assert_eq!(decode_sealed(&short), Err(CoreError::DecodeError));
}

#[test]
fn encoding_is_transport_safe_text() {
    let ss = SealedSecret {
        ciphertext: vec![0xffu8; 16],
        salt: vec![0u8; 32],
        nonce: vec![0u8; 24],
        log_n: 15,
    };
    let encoded = encode_sealed(&ss);
    // 32 zero salt bytes open the payload, so the text begins with base64 'A's
    assert!(encoded.starts_with("AAAAAAAAAA"));
    assert!(encoded.is_ascii());
}

#[test]
fn non_utf8_plaintext_is_a_decode_error() {
    let plaintext = vec![0xffu8, 0xc0, 0x01];
    let ss = seal_secret_with(&plaintext, &password("w"), test_salt(), test_nonce(), TEST_LOG_N)
        .expect("sealing succeeds");
    assert_eq!(
        decrypt_password_string(&ss, &password("w")),
        Err(CoreError::DecodeError)
    );
}

#[test]
fn tampered_stored_string_fails_closed() {
    let encoded = encrypt_to_string(b"my secret phrase", &password("w")).expect("encryption succeeds");
    let ss = decode_sealed(&encoded).expect("own encoding decodes");
    let mut tampered = ss.clone();
    tampered.ciphertext[3] ^= 0x10;
    let reencoded = encode_sealed(&tampered);
    assert_eq!(
        decrypt_from_string(&reencoded, &password("w")),
        Err(CoreError::AuthenticationFailure)
    );
}

#[test]
fn error_kind_query() {
    assert!(CoreError::AuthenticationFailure.is_authentication_failure());
    assert!(!CoreError::DecodeError.is_authentication_failure());
    assert!(!CoreError::InvalidParameters.is_authentication_failure());
    assert!(!CoreError::IOFailure.is_authentication_failure());
}
