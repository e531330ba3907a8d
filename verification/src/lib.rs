//! Sealed-credential library: password-based key derivation, authenticated
//! sealing and unsealing of a secret phrase, a transport-safe text codec for
//! sealed payloads, the credential file format, and the unlock workflow.

pub mod account;
pub mod args;
pub mod codec;
pub mod config;
pub mod encryption;
pub mod errors;
pub mod jsonobj;
pub mod jsontext;
pub mod kdf;
pub mod message;
pub mod seal;
pub mod unlock;
