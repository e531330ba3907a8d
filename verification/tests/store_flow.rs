use ardo::account::{parse_account, render_account, ArdorAccount, BalanceResponse};
use ardo::config::{parse_config, render_config, Config};
use ardo::encryption::encrypt_to_string;
use ardo::errors::CoreError;
use ardo::kdf::PasswordInput;
use ardo::message::Message;
use ardo::unlock::{retry_unlock, start_unlock, UnlockStep};

fn password(s: &str) -> PasswordInput {
    PasswordInput::Password(s.as_bytes().to_vec())
}

#[test]
fn account_round_trip() {
    let account = ArdorAccount::new(
        "ARDOR-1234".to_string(),
        "sealed-secret-text".to_string(),
        "https://node.example:26876".to_string(),
    );
    let bytes = render_account(&account);
    let loaded = parse_account(&bytes).expect("own rendering parses");
    assert_eq!(loaded.get_account_id(), "ARDOR-1234");
    assert_eq!(loaded.get_secret(), "sealed-secret-text");
    assert_eq!(loaded.get_node(), "https://node.example:26876");
}

#[test]
fn account_round_trip_with_awkward_characters() {
    let account = ArdorAccount::new(
        "a\"b\\c\nd".to_string(),
        "tab\there and \u{1F512} lock".to_string(),
        "".to_string(),
    );
    let bytes = render_account(&account);
    let loaded = parse_account(&bytes).expect("escaped fields round trip");
    assert_eq!(loaded.get_account_id(), "a\"b\\c\nd");
    assert_eq!(loaded.get_secret(), "tab\there and \u{1F512} lock");
    assert_eq!(loaded.get_node(), "");
}

#[test]
fn account_file_exact_text() {
    let account = ArdorAccount::new(
        "ARD-TEST-1".to_string(),
        "SECRET-PAYLOAD".to_string(),
        "https://node.example".to_string(),
    );
    let bytes = render_account(&account);
    assert_eq!(
        bytes.as_slice(),
        br#"{"account_id":"ARD-TEST-1","secret_phrase":"SECRET-PAYLOAD","node_url":"https://node.example"}"#
    );
}

#[test]
fn account_file_exact_escapes() {
    let account =
        ArdorAccount::new("a\"b\\c\nd".to_string(), "s".to_string(), "n".to_string());
    let bytes = render_account(&account);
    assert_eq!(
        bytes.as_slice(),
        b"{\"account_id\":\"a\\\"b\\\\c\\u000ad\",\"secret_phrase\":\"s\",\"node_url\":\"n\"}"
            .as_slice()
    );
}

#[test]
fn account_file_exact_hex_escape() {
    let account = ArdorAccount::new("\u{1f}".to_string(), "s".to_string(), "n".to_string());
    let bytes = render_account(&account);
    assert_eq!(
        bytes.as_slice(),
        br#"{"account_id":"\u001f","secret_phrase":"s","node_url":"n"}"#
    );
    let loaded = parse_account(&bytes).expect("hex escape round trips");
    assert_eq!(loaded.get_account_id(), "\u{1f}");
}

fn expect_account_decode_error(text: &[u8]) {
    match parse_account(&text.to_vec()) {
        Ok(_) => panic!("malformed text must not parse"),
        Err(e) => assert_eq!(e, CoreError::DecodeError),
    }
}

#[test]
fn account_parser_rejects_malformed_text() {
    expect_account_decode_error(b"{}");
    expect_account_decode_error(b"");
    // fields out of order
    expect_account_decode_error(
        br#"{"secret_phrase":"s","account_id":"a","node_url":"n"}"#,
    );
    // trailing bytes after the closing brace
    expect_account_decode_error(
        br#"{"account_id":"a","secret_phrase":"s","node_url":"n"} "#,
    );
    // an unterminated value
    expect_account_decode_error(br#"{"account_id":"a"#);
    // an escape form the renderer never produces
    expect_account_decode_error(
        br#"{"account_id":"\u0041","secret_phrase":"s","node_url":"n"}"#,
    );
    // a raw control byte inside a value
    expect_account_decode_error(
        b"{\"account_id\":\"a\nb\",\"secret_phrase\":\"s\",\"node_url\":\"n\"}",
    );
}

#[test]
fn config_round_trip_and_exact_text() {
    let config = Config::new(
        "ARDOR-OWNER".to_string(),
        "verified stores".to_string(),
        "https://node.example".to_string(),
    );
    let bytes = render_config(&config);
    assert_eq!(
        bytes.as_slice(),
        br#"{"recipient_id":"ARDOR-OWNER","project":"verified stores","node_url":"https://node.example"}"#
    );
    let loaded = parse_config(&bytes).expect("own rendering parses");
    assert_eq!(loaded.get_recipient_id(), "ARDOR-OWNER");
    assert_eq!(loaded.get_project(), "verified stores");
    assert_eq!(loaded.get_node_url(), "https://node.example");
}

#[test]
fn first_run_scenario() {
    // no credential file exists yet: the store reports absent
    let stored: Option<Vec<u8>> = None;
    assert!(stored.is_none());
    // setup produces a credential with the secret sealed under "hunter2"
    let sealed = encrypt_to_string(b"correct horse battery staple", &password("hunter2"))
        .expect("sealing the new secret succeeds");
    let account =
        ArdorAccount::new("ARD-TEST-1".to_string(), sealed, "https://node.example".to_string());
    // save writes the rendered record; a fresh load reads it back
    let stored = Some(render_account(&account));
    let loaded = parse_account(stored.as_ref().expect("record was saved"))
        .expect("saved record loads");
    assert_eq!(loaded.get_account_id(), "ARD-TEST-1");
    // unsealing the loaded record under "hunter2" yields the original secret
    let step = retry_unlock(loaded.get_secret(), &password("hunter2"), 1);
    match step {
        UnlockStep::Unlocked(secret) => assert_eq!(secret, "correct horse battery staple"),
        _ => panic!("expected the correct password to unlock"),
    }
}

#[test]
fn default_password_unlocks_without_prompt() {
    let sealed = encrypt_to_string(b"plain secret", &PasswordInput::NoPassword)
        .expect("sealing succeeds");
    let step = start_unlock(&sealed, 1);
    match step {
        UnlockStep::Unlocked(secret) => assert_eq!(secret, "plain secret"),
        _ => panic!("a secret sealed under the empty password must unlock by default"),
    }
}

#[test]
fn wrong_password_then_correct_password() {
    let sealed = encrypt_to_string(b"guarded secret", &password("hunter2"))
        .expect("sealing succeeds");
    // the default attempt fails and asks for a password
    let step = start_unlock(&sealed, 2);
    assert!(matches!(step, UnlockStep::PromptPassword(2)));
    // a wrong password uses up one attempt
    let step = retry_unlock(&sealed, &password("wrong"), 2);
    assert!(matches!(step, UnlockStep::PromptPassword(1)));
    // the correct password releases the original plaintext
    let step = retry_unlock(&sealed, &password("hunter2"), 1);
    match step {
        UnlockStep::Unlocked(secret) => assert_eq!(secret, "guarded secret"),
        _ => panic!("expected the correct password to unlock"),
    }
}

#[test]
fn unlock_is_fatal_when_attempts_run_out() {
    let sealed = encrypt_to_string(b"guarded secret", &password("hunter2"))
        .expect("sealing succeeds");
    let step = retry_unlock(&sealed, &password("still wrong"), 1);
    assert!(matches!(step, UnlockStep::Fatal(CoreError::AuthenticationFailure)));
    let step = start_unlock(&sealed, 0);
    assert!(matches!(step, UnlockStep::Fatal(CoreError::AuthenticationFailure)));
}

#[test]
fn unlock_on_corrupt_store_asks_then_fails() {
    let step = start_unlock("not a stored secret", 1);
    assert!(matches!(step, UnlockStep::PromptPassword(1)));
    let step = retry_unlock("not a stored secret", &password("any"), 1);
    assert!(matches!(step, UnlockStep::Fatal(CoreError::DecodeError)));
}

#[test]
fn message_and_balance_accessors() {
    let m = Message::new(
        "sender-id".to_string(),
        "start".to_string(),
        "12:30".to_string(),
        "project: work".to_string(),
    );
    assert_eq!(m.sender, "sender-id");
    assert_eq!(m.command, "start");
    assert_eq!(m.time, "12:30");
    assert_eq!(m.description, "project: work");
    let b = BalanceResponse {
        unconfirmed_balance_nqt: "5".to_string(),
        balance_nqt: "7".to_string(),
        request_processing_time: 1,
    };
    assert_eq!(b.get_balance(), "7");
}
