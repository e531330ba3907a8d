use vstd::prelude::*;

use crate::encryption::bytes_to_string;
use crate::errors::CoreError;
use crate::jsonobj::{json3, parse3, render3};
use vstd::string::StrSliceExecFns;
use vstd::utf8::encode_utf8;

verus! {

broadcast use
    vstd::utf8::encode_utf8_valid_utf8,
    vstd::utf8::encode_utf8_decode_utf8,
    vstd::utf8::decode_utf8_encode_utf8;

/// The reporting configuration: who receives the reports, which project they
/// belong to, and the node to talk to.
pub struct Config {
    recipient_id: String,
    project: String,
    node_url: String,
}

/// The key of the recipient field in the configuration file.
pub open spec fn key_recipient_id() -> Seq<u8> {
    encode_utf8("recipient_id"@)
}

/// The key of the project field in the configuration file.
pub open spec fn key_project() -> Seq<u8> {
    encode_utf8("project"@)
}

/// The key of the endpoint field in the configuration file.
pub open spec fn key_config_node_url() -> Seq<u8> {
    encode_utf8("node_url"@)
}

/// The exact bytes of the configuration file for given field values.
pub open spec fn config_json(recipient: Seq<char>, project: Seq<char>, node: Seq<char>) -> Seq<
    u8,
> {
    json3(
        key_recipient_id(),
        key_project(),
        key_config_node_url(),
        encode_utf8(recipient),
        encode_utf8(project),
        encode_utf8(node),
    )
}

fn key_recipient_id_vec() -> (r: Vec<u8>)
    ensures
        r@ == key_recipient_id(),
{
    "recipient_id".as_bytes_vec()
}

fn key_project_vec() -> (r: Vec<u8>)
    ensures
        r@ == key_project(),
{
    "project".as_bytes_vec()
}

fn key_config_node_url_vec() -> (r: Vec<u8>)
    ensures
        r@ == key_config_node_url(),
{
    "node_url".as_bytes_vec()
}

impl Config {
    /// The recipient's account identifier.
    pub closed spec fn recipient(&self) -> Seq<char> {
        self.recipient_id@
    }

    /// The project name.
    pub closed spec fn project_name(&self) -> Seq<char> {
        self.project@
    }

    /// The node endpoint.
    pub closed spec fn node(&self) -> Seq<char> {
        self.node_url@
    }

    pub fn new(recipient_id: String, project: String, node_url: String) -> (r: Config)
        ensures
            r.recipient() == recipient_id@,
            r.project_name() == project@,
            r.node() == node_url@,
    {
        Config { recipient_id, project, node_url }
    }

    pub fn get_node_url(&self) -> (r: &str)
        ensures
            r@ == self.node(),
    {
        self.node_url.as_str()
    }

    pub fn get_recipient_id(&self) -> (r: &str)
        ensures
            r@ == self.recipient(),
    {
        self.recipient_id.as_str()
    }

    pub fn get_project(&self) -> (r: &str)
        ensures
            r@ == self.project_name(),
    {
        self.project.as_str()
    }
}

/// Renders the configuration as the exact bytes of its file.
pub fn render_config(config: &Config) -> (r: Vec<u8>)
    ensures
        r@ == config_json(config.recipient(), config.project_name(), config.node()),
{
    let k1 = key_recipient_id_vec();
    let k2 = key_project_vec();
    let k3 = key_config_node_url_vec();
    let b1 = config.recipient_id.as_str().as_bytes_vec();
    let b2 = config.project.as_str().as_bytes_vec();
    let b3 = config.node_url.as_str().as_bytes_vec();
    render3(&k1, &b1, &k2, &b2, &k3, &b3)
}

/// Reconstructs the configuration from the bytes of its file; `DecodeError`
/// on anything that `render_config` cannot have produced. The second
/// `ensures` clause is the storage round trip for the configuration.
pub fn parse_config(s: &Vec<u8>) -> (r: Result<Config, CoreError>)
    ensures
        r is Ok ==> s@ == config_json(
            r->Ok_0.recipient(),
            r->Ok_0.project_name(),
            r->Ok_0.node(),
        ),
        forall|recipient: Seq<char>, project: Seq<char>, node: Seq<char>|
            s@ == #[trigger] config_json(recipient, project, node) ==> r is Ok
                && r->Ok_0.recipient() == recipient && r->Ok_0.project_name() == project
                && r->Ok_0.node() == node,
        r is Err ==> r->Err_0 == CoreError::DecodeError,
{
    let k1 = key_recipient_id_vec();
    let k2 = key_project_vec();
    let k3 = key_config_node_url_vec();
    let (b1, b2, b3) = match parse3(s, &k1, &k2, &k3) {
        Ok(x) => x,
        Err(e) => {
            return Err(e);
        },
    };
    let ghost bg1 = b1@;
    let ghost bg2 = b2@;
    let ghost bg3 = b3@;
    let recipient_id = match bytes_to_string(b1) {
        Ok(x) => x,
        Err(_) => {
            return Err(CoreError::DecodeError);
        },
    };
    let project = match bytes_to_string(b2) {
        Ok(x) => x,
        Err(_) => {
            return Err(CoreError::DecodeError);
        },
    };
    let node_url = match bytes_to_string(b3) {
        Ok(x) => x,
        Err(_) => {
            return Err(CoreError::DecodeError);
        },
    };
    let out = Config { recipient_id, project, node_url };
    proof {
        assert(bg1 == encode_utf8(out.recipient()));
        assert(bg2 == encode_utf8(out.project_name()));
        assert(bg3 == encode_utf8(out.node()));
    }
    Ok(out)
}

} // verus!
