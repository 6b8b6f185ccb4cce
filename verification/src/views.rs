//! Plain-value models of the event feed's primitives.
//!
//! The node that supplies blocks, receipts and outcomes is an external
//! collaborator; these types hold exactly the parts of its payloads that
//! the lifecycle logic reads.

use vstd::prelude::*;

verus! {

/// Raw execution status as the feed reports it. Payloads (error detail,
/// returned value, follow-up receipt id) are irrelevant to the lifecycle
/// table and are not carried.
#[derive(Clone, Copy, Debug, PartialEq, Eq, Structural)]
pub enum ExecutionStatusView {
    Unknown,
    Failure,
    SuccessValue,
    SuccessReceiptId,
}

/// Permission scope as declared on an access key in the feed or in a
/// state snapshot.
#[derive(Clone, Copy, Debug, PartialEq, Eq, Structural)]
pub enum AccessKeyPermissionView {
    FunctionCall,
    FullAccess,
}

/// One action carried by an action receipt. Only the kinds the lifecycle
/// logic reads are distinguished; every other kind is `Other`.
#[derive(Clone, Debug)]
pub enum ActionView {
    AddKey { public_key: String, permission: AccessKeyPermissionView },
    DeleteKey { public_key: String },
    Transfer,
    Other,
}

/// The body of a receipt: an action receipt carries actions, a data
/// receipt carries none.
#[derive(Clone, Debug)]
pub enum ReceiptEnumView {
    Action { actions: Vec<ActionView> },
    Data,
}

/// One receipt delivered to an account.
#[derive(Clone, Debug)]
pub struct ReceiptView {
    pub receipt_id: String,
    pub receiver_id: String,
    pub receipt: ReceiptEnumView,
}

/// The asynchronously delivered result of executing one receipt.
#[derive(Clone, Debug)]
pub struct ExecutionOutcomeView {
    pub receipt_id: String,
    pub status: ExecutionStatusView,
}

/// One chunk of a block: its receipts and the execution outcomes that
/// arrived with it.
#[derive(Clone, Debug)]
pub struct ChunkView {
    pub receipts: Vec<ReceiptView>,
    pub receipt_execution_outcomes: Vec<ExecutionOutcomeView>,
}

/// One block payload from the feed.
#[derive(Clone, Debug)]
pub struct StreamerMessage {
    pub block_height: u64,
    pub chunks: Vec<ChunkView>,
}

/// One entry of a full state snapshot. Only access-key records matter to
/// the lifecycle table; every other record kind is `Other`.
#[derive(Clone, Debug)]
pub enum StateRecord {
    AccessKey { account_id: String, public_key: String, permission: AccessKeyPermissionView },
    Other,
}

} // verus!
