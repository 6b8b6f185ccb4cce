//! Closed enums persisted in the access-key lifecycle table.

use vstd::prelude::*;

use crate::views::{AccessKeyPermissionView, ExecutionStatusView};

verus! {

/// Lifecycle action recorded for an access key.
#[derive(Clone, Copy, Debug, PartialEq, Eq, Structural)]
pub enum AccessKeyAction {
    Add,
    Delete,
}

/// Outcome of the operation that originated a record.
#[derive(Clone, Copy, Debug, PartialEq, Eq, Structural)]
pub enum ExecutionStatus {
    Pending,
    Success,
    Failed,
}

/// Permission scope persisted with a record.
#[derive(Clone, Copy, Debug, PartialEq, Eq, Structural)]
pub enum AccessKeyPermission {
    /// Used only with AccessKeyAction::Delete
    NotApplicable,
    /// Used only with AccessKeyAction::Add
    FullAccess,
    /// Used only with AccessKeyAction::Add
    FunctionCall,
}

/// How a raw execution status collapses to a stored status: an unknown
/// outcome counts as failed, and nothing maps to pending.
pub open spec fn status_of_view(v: ExecutionStatusView) -> ExecutionStatus {
    match v {
        ExecutionStatusView::Unknown => ExecutionStatus::Failed,
        ExecutionStatusView::Failure => ExecutionStatus::Failed,
        ExecutionStatusView::SuccessValue => ExecutionStatus::Success,
        ExecutionStatusView::SuccessReceiptId => ExecutionStatus::Success,
    }
}

/// How a declared permission maps to the stored permission.
pub open spec fn permission_of_view(v: AccessKeyPermissionView) -> AccessKeyPermission {
    match v {
        AccessKeyPermissionView::FunctionCall => AccessKeyPermission::FunctionCall,
        AccessKeyPermissionView::FullAccess => AccessKeyPermission::FullAccess,
    }
}

impl From<ExecutionStatusView> for ExecutionStatus {
    fn from(status_view: ExecutionStatusView) -> Self {
        match status_view {
            ExecutionStatusView::Failure | ExecutionStatusView::Unknown => Self::Failed,
            ExecutionStatusView::SuccessReceiptId | ExecutionStatusView::SuccessValue => Self::Success,
        }
    }
}

impl vstd::std_specs::convert::FromSpecImpl<ExecutionStatusView> for ExecutionStatus {
    open spec fn obeys_from_spec() -> bool {
        true
    }

    open spec fn from_spec(v: ExecutionStatusView) -> Self {
        status_of_view(v)
    }
}

impl From<AccessKeyPermissionView> for AccessKeyPermission {
    fn from(item: AccessKeyPermissionView) -> Self {
        match item {
            AccessKeyPermissionView::FunctionCall => Self::FunctionCall,
            AccessKeyPermissionView::FullAccess => Self::FullAccess,
        }
    }
}

impl vstd::std_specs::convert::FromSpecImpl<AccessKeyPermissionView> for AccessKeyPermission {
    open spec fn obeys_from_spec() -> bool {
        true
    }

    open spec fn from_spec(v: AccessKeyPermissionView) -> Self {
        permission_of_view(v)
    }
}

} // verus!
