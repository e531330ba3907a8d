use vstd::prelude::*;

use crate::encryption::bytes_to_string;
use crate::errors::CoreError;
use crate::jsonobj::{json3, parse3, render3};
use vstd::string::StrSliceExecFns;
use vstd::utf8::encode_utf8;

verus! {

broadcast use
    vstd::utf8::encode_utf8_valid_utf8,
    vstd::utf8::encode_utf8_decode_utf8,
    vstd::utf8::decode_utf8_encode_utf8;

/// The stored account record: the account's identifier, the sealed secret
/// phrase in its printable encoding, and the node endpoint. Created once at
/// first-run setup and loaded on every later invocation.
pub struct ArdorAccount {
    account_id: String,
    secret_phrase: String,
    node_url: String,
}

/// Account information as the ledger node reports it.
pub struct AccountInfo {
    pub forged_balance: String,
    pub account_rs: String,
    pub request_processing_time: i32,
    pub account: String,
}

/// A balance report from the ledger node.
pub struct BalanceResponse {
    pub unconfirmed_balance_nqt: String,
    pub balance_nqt: String,
    pub request_processing_time: i32,
}

impl BalanceResponse {
    /// The confirmed balance, as the node's decimal string.
    pub fn get_balance(&self) -> (r: &str)
        ensures
            r@ == self.balance_nqt@,
    {
        self.balance_nqt.as_str()
    }
}

/// The key of the account identifier field in the account file.
pub open spec fn key_account_id() -> Seq<u8> {
    encode_utf8("account_id"@)
}

/// The key of the sealed secret field in the account file.
pub open spec fn key_secret_phrase() -> Seq<u8> {
    encode_utf8("secret_phrase"@)
}

/// The key of the endpoint field in the account file.
pub open spec fn key_node_url() -> Seq<u8> {
    encode_utf8("node_url"@)
}

/// The exact bytes of the account file for given field values: an object of
/// the three fields, in order, with every value escaped.
pub open spec fn account_json(id: Seq<char>, secret: Seq<char>, node: Seq<char>) -> Seq<u8> {
    json3(
        key_account_id(),
        key_secret_phrase(),
        key_node_url(),
        encode_utf8(id),
        encode_utf8(secret),
        encode_utf8(node),
    )
}

fn key_account_id_vec() -> (r: Vec<u8>)
    ensures
        r@ == key_account_id(),
{
    "account_id".as_bytes_vec()
}

fn key_secret_phrase_vec() -> (r: Vec<u8>)
    ensures
        r@ == key_secret_phrase(),
{
    "secret_phrase".as_bytes_vec()
}

fn key_node_url_vec() -> (r: Vec<u8>)
    ensures
        r@ == key_node_url(),
{
    "node_url".as_bytes_vec()
}

impl ArdorAccount {
    /// The account identifier, as a character sequence.
    pub closed spec fn id(&self) -> Seq<char> {
        self.account_id@
    }

    /// The stored sealed secret in its printable encoding.
    pub closed spec fn secret(&self) -> Seq<char> {
        self.secret_phrase@
    }

    /// The node endpoint.
    pub closed spec fn node(&self) -> Seq<char> {
        self.node_url@
    }

    pub fn new(account_id: String, secret_phrase: String, node_url: String) -> (r: ArdorAccount)
        ensures
            r.id() == account_id@,
            r.secret() == secret_phrase@,
            r.node() == node_url@,
    {
        ArdorAccount { account_id, secret_phrase, node_url }
    }

    pub fn get_node(&self) -> (r: String)
        ensures
            r@ == self.node(),
    {
        self.node_url.clone()
    }

    pub fn get_account_id(&self) -> (r: String)
        ensures
            r@ == self.id(),
    {
        self.account_id.clone()
    }

    /// The sealed secret's printable encoding, for unsealing.
    pub fn get_secret(&self) -> (r: &str)
        ensures
            r@ == self.secret(),
    {
        self.secret_phrase.as_str()
    }
}

/// Renders the account record as the exact bytes of its file.
pub fn render_account(account: &ArdorAccount) -> (r: Vec<u8>)
    ensures
        r@ == account_json(account.id(), account.secret(), account.node()),
{
    let k1 = key_account_id_vec();
    let k2 = key_secret_phrase_vec();
    let k3 = key_node_url_vec();
    let b1 = account.account_id.as_str().as_bytes_vec();
    let b2 = account.secret_phrase.as_str().as_bytes_vec();
    let b3 = account.node_url.as_str().as_bytes_vec();
    render3(&k1, &b1, &k2, &b2, &k3, &b3)
}

/// Reconstructs the account record from the bytes of its file; `DecodeError`
/// on anything that `render_account` cannot have produced.
/// The second `ensures` clause is the storage round trip: the rendering of
/// any account record parses back to exactly that record.
pub fn parse_account(s: &Vec<u8>) -> (r: Result<ArdorAccount, CoreError>)
    ensures
        r is Ok ==> s@ == account_json(r->Ok_0.id(), r->Ok_0.secret(), r->Ok_0.node()),
        forall|id: Seq<char>, secret: Seq<char>, node: Seq<char>|
            s@ == #[trigger] account_json(id, secret, node) ==> r is Ok && r->Ok_0.id() == id
                && r->Ok_0.secret() == secret && r->Ok_0.node() == node,
        r is Err ==> r->Err_0 == CoreError::DecodeError,
{
    let k1 = key_account_id_vec();
    let k2 = key_secret_phrase_vec();
    let k3 = key_node_url_vec();
    let (b1, b2, b3) = match parse3(s, &k1, &k2, &k3) {
        Ok(x) => x,
        Err(e) => {
            return Err(e);
        },
    };
    let ghost bg1 = b1@;
    let ghost bg2 = b2@;
    let ghost bg3 = b3@;
    let account_id = match bytes_to_string(b1) {
        Ok(x) => x,
        Err(_) => {
            return Err(CoreError::DecodeError);
        },
    };
    let secret_phrase = match bytes_to_string(b2) {
        Ok(x) => x,
        Err(_) => {
            return Err(CoreError::DecodeError);
        },
    };
    let node_url = match bytes_to_string(b3) {
        Ok(x) => x,
        Err(_) => {
            return Err(CoreError::DecodeError);
        },
    };
    let out = ArdorAccount { account_id, secret_phrase, node_url };
    proof {
        assert(bg1 == encode_utf8(out.id()));
        assert(bg2 == encode_utf8(out.secret()));
        assert(bg3 == encode_utf8(out.node()));
    }
    Ok(out)
}

} // verus!
