use vstd::prelude::*;

verus! {

/// A status message sent to the project owner's account.
pub struct Message {
    pub sender: String,
    pub command: String,
    pub time: String,
    pub description: String,
}

impl Message {
    pub fn new(sender: String, command: String, time: String, description: String) -> (r: Message)
        ensures
            r.sender@ == sender@,
            r.command@ == command@,
            r.time@ == time@,
            r.description@ == description@,
    {
        Message { sender, command, time, description }
    }
}

/// The attachment part of a transaction as the ledger node shapes it.
pub struct Attachment {
    pub version_message: i64,
    pub message_is_text: bool,
    pub message: String,
    pub version_arbitrary_message: i64,
}

/// A transaction as the ledger node reports it.
pub struct TransactionJson {
    pub sender_public_key: String,
    pub chain: i64,
    pub signature: String,
    pub fee_nqt: String,
    pub kind: i64,
    pub full_hash: String,
    pub version: i64,
    pub fxt_transaction: String,
    pub phased: bool,
    pub ec_block_id: String,
    pub signature_hash: String,
    pub attachment: Attachment,
    pub sender_rs: String,
    pub subtype: i64,
    pub amount_nqt: String,
    pub sender: String,
    pub recipient_rs: String,
    pub recipient: String,
    pub ec_block_height: i64,
    pub deadline: i64,
    pub timestamp: i64,
    pub height: i64,
}

/// The ledger node's answer to a sent message.
pub struct SendMessageResponse {
    pub minimum_fee_fqt: String,
    pub signature_hash: String,
    pub transaction_json: TransactionJson,
    pub unsigned_transaction_bytes: String,
    pub broadcasted: bool,
    pub request_processing_time: i64,
    pub transaction_bytes: String,
    pub full_hash: String,
    pub bundler_rate_nqtper_fxt: String,
}

} // verus!
