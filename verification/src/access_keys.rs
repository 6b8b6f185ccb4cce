//! The lifecycle record and the event classifier that derives records
//! from receipts.

use vstd::prelude::*;

use crate::encoding::{
    ed25519_display_of, ed25519_key_display, hex_bytes, hex_decode, is_hex_string,
    lemma_hex_bytes_len,
};
use crate::enums::{
    permission_of_view, AccessKeyAction, AccessKeyPermission, ExecutionStatus,
};
use crate::views::{AccessKeyPermissionView, ActionView, ReceiptEnumView, ReceiptView};

verus! {

/// One row of the lifecycle table.
#[derive(Clone, Debug)]
pub struct AccessKey {
    pub public_key: String,
    pub account_id: String,
    pub action: AccessKeyAction,
    pub status: ExecutionStatus,
    pub receipt_hash: String,
    pub block_height: u64,
    pub permission: AccessKeyPermission,
}

/// Mathematical value of one row.
pub ghost struct AccessKeyView {
    pub public_key: Seq<char>,
    pub account_id: Seq<char>,
    pub action: AccessKeyAction,
    pub status: ExecutionStatus,
    pub receipt_hash: Seq<char>,
    pub block_height: int,
    pub permission: AccessKeyPermission,
}

impl View for AccessKey {
    type V = AccessKeyView;

    open spec fn view(&self) -> AccessKeyView {
        AccessKeyView {
            public_key: self.public_key@,
            account_id: self.account_id@,
            action: self.action,
            status: self.status,
            receipt_hash: self.receipt_hash@,
            block_height: self.block_height as int,
            permission: self.permission,
        }
    }
}

/// The values of a sequence of rows.
pub open spec fn views_of(records: Seq<AccessKey>) -> Seq<AccessKeyView> {
    records.map_values(|r: AccessKey| r@)
}

/// The natural key: one lifecycle event is identified by
/// (public key, account, action, originating receipt).
pub open spec fn same_natural_key(a: AccessKeyView, b: AccessKeyView) -> bool {
    a.public_key == b.public_key && a.account_id == b.account_id && a.action == b.action
        && a.receipt_hash == b.receipt_hash
}

/// Permission and action agree: NotApplicable exactly for deletions.
pub open spec fn record_well_formed(r: AccessKeyView) -> bool {
    (r.permission == AccessKeyPermission::NotApplicable) <==> (r.action
        == AccessKeyAction::Delete)
}

/// A receiver id that is itself a key: exactly 64 characters of hex.
pub open spec fn is_implicit_account_id(receiver_id: Seq<char>) -> bool {
    receiver_id.len() == 64 && is_hex_string(receiver_id)
}

/// Status stored when none is known yet.
pub open spec fn default_status(status: Option<ExecutionStatus>) -> ExecutionStatus {
    match status {
        Some(s) => s,
        None => ExecutionStatus::Pending,
    }
}

/// The records one action of a receipt contributes: one per added or
/// deleted key, one synthetic full-access addition per transfer to an
/// implicit account, none otherwise.
pub open spec fn records_of_action(
    action: ActionView,
    receiver_id: Seq<char>,
    receipt_id: Seq<char>,
    block_height: u64,
    status: ExecutionStatus,
) -> Seq<AccessKeyView> {
    match action {
        ActionView::AddKey { public_key, permission } => seq![
            AccessKeyView {
                public_key: public_key@,
                account_id: receiver_id,
                action: AccessKeyAction::Add,
                status: status,
                receipt_hash: receipt_id,
                block_height: block_height as int,
                permission: permission_of_view(permission),
            },
        ],
        ActionView::DeleteKey { public_key } => seq![
            AccessKeyView {
                public_key: public_key@,
                account_id: receiver_id,
                action: AccessKeyAction::Delete,
                status: status,
                receipt_hash: receipt_id,
                block_height: block_height as int,
                permission: AccessKeyPermission::NotApplicable,
            },
        ],
        ActionView::Transfer => if is_implicit_account_id(receiver_id) {
            seq![
                AccessKeyView {
                    public_key: ed25519_display_of(hex_bytes(receiver_id)),
                    account_id: receiver_id,
                    action: AccessKeyAction::Add,
                    status: status,
                    receipt_hash: receipt_id,
                    block_height: block_height as int,
                    permission: AccessKeyPermission::FullAccess,
                },
            ]
        } else {
            Seq::empty()
        },
        ActionView::Other => Seq::empty(),
    }
}

/// The records of a whole action list, in action order.
pub open spec fn records_of_actions(
    actions: Seq<ActionView>,
    receiver_id: Seq<char>,
    receipt_id: Seq<char>,
    block_height: u64,
    status: ExecutionStatus,
) -> Seq<AccessKeyView>
    decreases actions.len(),
{
    if actions.len() == 0 {
        Seq::empty()
    } else {
        records_of_action(actions[0], receiver_id, receipt_id, block_height, status)
            + records_of_actions(actions.skip(1), receiver_id, receipt_id, block_height, status)
    }
}

/// The records one receipt implies: its actions' records for an action
/// receipt, with the given status or Pending when none is known yet;
/// none for a data receipt.
pub open spec fn records_of_receipt(
    receipt: ReceiptView,
    block_height: u64,
    status: Option<ExecutionStatus>,
) -> Seq<AccessKeyView> {
    match receipt.receipt {
        ReceiptEnumView::Action { actions } => records_of_actions(
            actions@,
            receipt.receiver_id@,
            receipt.receipt_id@,
            block_height,
            default_status(status),
        ),
        ReceiptEnumView::Data => Seq::empty(),
    }
}

/// Law: an add-key action contributes exactly one record: action Add on
/// the receipt's receiver, the declared permission mapped, and the
/// mapped permission is never NotApplicable.
pub proof fn lemma_add_key_record(
    public_key: String,
    permission: AccessKeyPermissionView,
    receiver_id: Seq<char>,
    receipt_id: Seq<char>,
    block_height: u64,
    status: ExecutionStatus,
)
    ensures
        records_of_action(
            ActionView::AddKey { public_key, permission },
            receiver_id,
            receipt_id,
            block_height,
            status,
        ) == seq![
            (AccessKeyView {
                public_key: public_key@,
                account_id: receiver_id,
                action: AccessKeyAction::Add,
                status: status,
                receipt_hash: receipt_id,
                block_height: block_height as int,
                permission: permission_of_view(permission),
            }),
        ],
        permission_of_view(permission) != AccessKeyPermission::NotApplicable,
{
}

/// Law: a delete-key action contributes exactly one record: action
/// Delete on the receipt's receiver, with permission NotApplicable.
pub proof fn lemma_delete_key_record(
    public_key: String,
    receiver_id: Seq<char>,
    receipt_id: Seq<char>,
    block_height: u64,
    status: ExecutionStatus,
)
    ensures
        records_of_action(
            ActionView::DeleteKey { public_key },
            receiver_id,
            receipt_id,
            block_height,
            status,
        ) == seq![
            (AccessKeyView {
                public_key: public_key@,
                account_id: receiver_id,
                action: AccessKeyAction::Delete,
                status: status,
                receipt_hash: receipt_id,
                block_height: block_height as int,
                permission: AccessKeyPermission::NotApplicable,
            }),
        ],
{
}

/// Law: a transfer contributes exactly one synthetic full-access
/// addition when the receiver id is a 64-character hex encoding of a
/// key, keyed to that id as account, and nothing for a receiver id of
/// any other length or with a non-hex character.
pub proof fn lemma_transfer_record(
    receiver_id: Seq<char>,
    receipt_id: Seq<char>,
    block_height: u64,
    status: ExecutionStatus,
)
    ensures
        is_implicit_account_id(receiver_id) ==> records_of_action(
            ActionView::Transfer,
            receiver_id,
            receipt_id,
            block_height,
            status,
        ) == seq![
            (AccessKeyView {
                public_key: ed25519_display_of(hex_bytes(receiver_id)),
                account_id: receiver_id,
                action: AccessKeyAction::Add,
                status: status,
                receipt_hash: receipt_id,
                block_height: block_height as int,
                permission: AccessKeyPermission::FullAccess,
            }),
        ],
        !is_implicit_account_id(receiver_id) ==> records_of_action(
            ActionView::Transfer,
            receiver_id,
            receipt_id,
            block_height,
            status,
        ) == Seq::<AccessKeyView>::empty(),
{
}

/// Law: a receipt's records split around any one of its actions: the
/// records of the actions before it, then that action's records, then
/// the records of the actions after it.
pub proof fn lemma_records_of_actions_decompose(
    actions: Seq<ActionView>,
    i: int,
    receiver_id: Seq<char>,
    receipt_id: Seq<char>,
    block_height: u64,
    status: ExecutionStatus,
)
    requires
        0 <= i < actions.len(),
    ensures
        records_of_actions(actions, receiver_id, receipt_id, block_height, status)
            == records_of_actions(actions.take(i), receiver_id, receipt_id, block_height, status)
            + records_of_action(actions[i], receiver_id, receipt_id, block_height, status)
            + records_of_actions(
            actions.skip(i + 1),
            receiver_id,
            receipt_id,
            block_height,
            status,
        ),
    decreases i,
{
    if i == 0 {
        assert(actions.take(0) =~= Seq::<ActionView>::empty());
        assert(actions.skip(1) =~= actions.skip(1));
        assert(records_of_actions(actions.take(0), receiver_id, receipt_id, block_height, status)
            =~= Seq::<AccessKeyView>::empty());
    } else {
        lemma_records_of_actions_decompose(
            actions.skip(1),
            i - 1,
            receiver_id,
            receipt_id,
            block_height,
            status,
        );
        assert(actions.skip(1).take(i - 1) =~= actions.take(i).skip(1));
        assert(actions.skip(1)[i - 1] == actions[i]);
        assert(actions.skip(1).skip(i) =~= actions.skip(i + 1));
        assert(actions.take(i)[0] == actions[0]);
        assert(records_of_actions(actions.take(i), receiver_id, receipt_id, block_height, status)
            == records_of_action(actions[0], receiver_id, receipt_id, block_height, status)
            + records_of_actions(
            actions.take(i).skip(1),
            receiver_id,
            receipt_id,
            block_height,
            status,
        ));
    }
}

/// A record is well formed -- permission NotApplicable exactly with
/// action Delete -- and carries the originating receipt's id as receipt
/// hash, its receiver as account, and the given height and status.
pub open spec fn record_from_receipt(
    r: AccessKeyView,
    receiver_id: Seq<char>,
    receipt_id: Seq<char>,
    block_height: u64,
    status: ExecutionStatus,
) -> bool {
    record_well_formed(r) && r.receipt_hash == receipt_id && r.account_id == receiver_id
        && r.block_height == block_height as int && r.status == status
}

/// Law: every record the classifier emits for a list of actions is well
/// formed and keyed to the originating receipt.
pub proof fn lemma_actions_records_well_formed(
    actions: Seq<ActionView>,
    receiver_id: Seq<char>,
    receipt_id: Seq<char>,
    block_height: u64,
    status: ExecutionStatus,
)
    ensures
        forall|k: int|
            0 <= k < records_of_actions(
                actions,
                receiver_id,
                receipt_id,
                block_height,
                status,
            ).len() ==> record_from_receipt(
                #[trigger] records_of_actions(
                    actions,
                    receiver_id,
                    receipt_id,
                    block_height,
                    status,
                )[k],
                receiver_id,
                receipt_id,
                block_height,
                status,
            ),
    decreases actions.len(),
{
    if actions.len() > 0 {
        lemma_actions_records_well_formed(
            actions.skip(1),
            receiver_id,
            receipt_id,
            block_height,
            status,
        );
        let whole = records_of_actions(actions, receiver_id, receipt_id, block_height, status);
        let head = records_of_action(actions[0], receiver_id, receipt_id, block_height, status);
        let tail = records_of_actions(
            actions.skip(1),
            receiver_id,
            receipt_id,
            block_height,
            status,
        );
        assert forall|k: int| 0 <= k < whole.len() implies record_from_receipt(
            #[trigger] whole[k],
            receiver_id,
            receipt_id,
            block_height,
            status,
        ) by {
            if k < head.len() {
                assert(whole[k] == head[k]);
            } else {
                assert(whole[k] == tail[k - head.len()]);
            }
        }
    }
}

/// Law: every record of a classified receipt is well formed and keyed
/// to that receipt.
pub proof fn lemma_receipt_records_well_formed(
    receipt: ReceiptView,
    block_height: u64,
    status: Option<ExecutionStatus>,
)
    ensures
        forall|k: int|
            0 <= k < records_of_receipt(receipt, block_height, status).len()
                ==> record_from_receipt(
                #[trigger] records_of_receipt(receipt, block_height, status)[k],
                receipt.receiver_id@,
                receipt.receipt_id@,
                block_height,
                default_status(status),
            ),
{
    if let ReceiptEnumView::Action { actions } = receipt.receipt {
        lemma_actions_records_well_formed(
            actions@,
            receipt.receiver_id@,
            receipt.receipt_id@,
            block_height,
            default_status(status),
        );
    }
}

impl AccessKey {
    /// The event classifier: derives the lifecycle records implied by one
    /// receipt, given the block height and the receipt's final status
    /// where it is already known. Malformed actions contribute nothing
    /// and never abort the receipt.
    pub fn from_receipt_view(
        receipt: &ReceiptView,
        block_height: u64,
        status: Option<ExecutionStatus>,
    ) -> (records: Vec<AccessKey>)
        ensures
            views_of(records@) == records_of_receipt(*receipt, block_height, status),
    {
        let mut access_keys: Vec<AccessKey> = Vec::new();
        let stored_status = match status {
            Some(s) => s,
            None => ExecutionStatus::Pending,
        };
        if let ReceiptEnumView::Action { actions } = &receipt.receipt {
            let ghost receiver: Seq<char> = receipt.receiver_id@;
            let ghost rid: Seq<char> = receipt.receipt_id@;
            let n = actions.len();
            let mut i: usize = 0;
            proof {
                assert(actions@.skip(0) =~= actions@);
                assert(views_of(access_keys@) + records_of_actions(
                    actions@,
                    receiver,
                    rid,
                    block_height,
                    stored_status,
                ) =~= records_of_actions(actions@, receiver, rid, block_height, stored_status));
            }
            while i < n
                invariant
                    n == actions@.len(),
                    i <= n,
                    views_of(access_keys@) + records_of_actions(
                        actions@.skip(i as int),
                        receiver,
                        rid,
                        block_height,
                        stored_status,
                    ) == records_of_actions(
                        actions@,
                        receiver,
                        rid,
                        block_height,
                        stored_status,
                    ),
                    receiver == receipt.receiver_id@,
                    rid == receipt.receipt_id@,
                decreases n - i,
            {
                proof {
                    assert(actions@.skip(i as int)[0] == actions@[i as int]);
                    assert(actions@.skip(i as int).skip(1) =~= actions@.skip(i as int + 1));
                }
                let ghost before: Seq<AccessKey> = access_keys@;
                match &actions[i] {
                    ActionView::AddKey { public_key, permission } => {
                        access_keys.push(
                            AccessKey {
                                public_key: public_key.clone(),
                                account_id: receipt.receiver_id.clone(),
                                action: AccessKeyAction::Add,
                                status: stored_status,
                                receipt_hash: receipt.receipt_id.clone(),
                                block_height,
                                permission: AccessKeyPermission::from(*permission),
                            },
                        );
                        proof {
                            assert(views_of(access_keys@) =~= views_of(before).push(
                                access_keys@.last()@,
                            ));
                        }
                    },
                    ActionView::DeleteKey { public_key } => {
                        access_keys.push(
                            AccessKey {
                                public_key: public_key.clone(),
                                account_id: receipt.receiver_id.clone(),
                                action: AccessKeyAction::Delete,
                                status: stored_status,
                                receipt_hash: receipt.receipt_id.clone(),
                                block_height,
                                permission: AccessKeyPermission::NotApplicable,
                            },
                        );
                        proof {
                            assert(views_of(access_keys@) =~= views_of(before).push(
                                access_keys@.last()@,
                            ));
                        }
                    },
                    ActionView::Transfer => {
                        if let Some(public_key_bytes) = hex_decode(&receipt.receiver_id) {
                            proof {
                                lemma_hex_bytes_len(receipt.receiver_id@);
                            }
                            if public_key_bytes.len() == 32 {
                                if let Some(public_key) = ed25519_key_display(
                                    &public_key_bytes,
                                ) {
                                    access_keys.push(
                                        AccessKey {
                                            public_key,
                                            account_id: receipt.receiver_id.clone(),
                                            action: AccessKeyAction::Add,
                                            status: stored_status,
                                            receipt_hash: receipt.receipt_id.clone(),
                                            block_height,
                                            permission: AccessKeyPermission::FullAccess,
                                        },
                                    );
                                    proof {
                                        assert(views_of(access_keys@) =~= views_of(
                                            before,
                                        ).push(access_keys@.last()@));
                                    }
                                }
                            }
                        }
                    },
                    ActionView::Other => {},
                }
                proof {
                    assert(views_of(access_keys@)
                        + records_of_actions(
                        actions@.skip(i as int + 1),
                        receiver,
                        rid,
                        block_height,
                        stored_status,
                    ) =~= views_of(before) + records_of_actions(
                        actions@.skip(i as int),
                        receiver,
                        rid,
                        block_height,
                        stored_status,
                    ));
                }
                i = i + 1;
            }
            proof {
                assert(actions@.skip(n as int) =~= Seq::<ActionView>::empty());
                assert(views_of(access_keys@) =~= views_of(access_keys@) + records_of_actions(
                    actions@.skip(n as int),
                    receiver,
                    rid,
                    block_height,
                    stored_status,
                ));
            }
        }
        access_keys
    }
}

} // verus!
