use indexer_for_wallet::access_keys::AccessKey;
use indexer_for_wallet::enums::{AccessKeyAction, AccessKeyPermission, ExecutionStatus};
use indexer_for_wallet::views::{
    AccessKeyPermissionView, ActionView, ReceiptEnumView, ReceiptView,
};

fn action_receipt(receipt_id: &str, receiver_id: &str, actions: Vec<ActionView>) -> ReceiptView {
    ReceiptView {
        receipt_id: receipt_id.to_owned(),
        receiver_id: receiver_id.to_owned(),
        receipt: ReceiptEnumView::Action { actions },
    }
}

#[test]
fn add_key_full_access_yields_one_add_record() {
    let receipt = action_receipt(
        "r1",
        "alice",
        vec![ActionView::AddKey {
            public_key: "ed25519:AAA".to_owned(),
            permission: AccessKeyPermissionView::FullAccess,
        }],
    );
    let records = AccessKey::from_receipt_view(&receipt, 7, None);
    assert_eq!(records.len(), 1);
    assert_eq!(records[0].public_key, "ed25519:AAA");
    assert_eq!(records[0].account_id, "alice");
    assert_eq!(records[0].action, AccessKeyAction::Add);
    assert_eq!(records[0].status, ExecutionStatus::Pending);
    assert_eq!(records[0].receipt_hash, "r1");
    assert_eq!(records[0].block_height, 7);
    assert_eq!(records[0].permission, AccessKeyPermission::FullAccess);
}

#[test]
fn add_key_function_call_maps_permission() {
    let receipt = action_receipt(
        "r2",
        "bob",
        vec![ActionView::AddKey {
            public_key: "ed25519:BBB".to_owned(),
            permission: AccessKeyPermissionView::FunctionCall,
        }],
    );
    let records = AccessKey::from_receipt_view(&receipt, 9, Some(ExecutionStatus::Success));
    assert_eq!(records.len(), 1);
    assert_eq!(records[0].permission, AccessKeyPermission::FunctionCall);
    assert_eq!(records[0].status, ExecutionStatus::Success);
    assert_ne!(records[0].permission, AccessKeyPermission::NotApplicable);
}

#[test]
fn delete_key_yields_not_applicable() {
    let receipt = action_receipt(
        "r3",
        "carol",
        vec![ActionView::DeleteKey { public_key: "ed25519:CCC".to_owned() }],
    );
    let records = AccessKey::from_receipt_view(&receipt, 11, None);
    assert_eq!(records.len(), 1);
    assert_eq!(records[0].action, AccessKeyAction::Delete);
    assert_eq!(records[0].permission, AccessKeyPermission::NotApplicable);
    assert_eq!(records[0].public_key, "ed25519:CCC");
    assert_eq!(records[0].status, ExecutionStatus::Pending);
}

#[test]
fn several_actions_yield_one_record_each_in_order() {
    let receipt = action_receipt(
        "r4",
        "dave",
        vec![
            ActionView::AddKey {
                public_key: "ed25519:DDD".to_owned(),
                permission: AccessKeyPermissionView::FullAccess,
            },
            ActionView::Other,
            ActionView::DeleteKey { public_key: "ed25519:EEE".to_owned() },
        ],
    );
    let records = AccessKey::from_receipt_view(&receipt, 3, None);
    assert_eq!(records.len(), 2);
    assert_eq!(records[0].action, AccessKeyAction::Add);
    assert_eq!(records[0].public_key, "ed25519:DDD");
    assert_eq!(records[1].action, AccessKeyAction::Delete);
    assert_eq!(records[1].public_key, "ed25519:EEE");
}

#[test]
fn data_receipt_yields_nothing() {
    let receipt = ReceiptView {
        receipt_id: "r5".to_owned(),
        receiver_id: "erin".to_owned(),
        receipt: ReceiptEnumView::Data,
    };
    let records = AccessKey::from_receipt_view(&receipt, 1, None);
    assert!(records.is_empty());
}

#[test]
fn transfer_to_implicit_account_yields_full_access_key() {
    let receiver: String = std::iter::repeat('0').take(64).collect();
    let receipt = action_receipt("r6", &receiver, vec![ActionView::Transfer]);
    let records = AccessKey::from_receipt_view(&receipt, 42, None);
    assert_eq!(records.len(), 1);
    assert_eq!(records[0].account_id, receiver);
    assert_eq!(records[0].action, AccessKeyAction::Add);
    assert_eq!(records[0].permission, AccessKeyPermission::FullAccess);
    assert_eq!(records[0].status, ExecutionStatus::Pending);
    // 32 zero bytes in base58 are 32 ones, behind the curve name
    assert_eq!(
        records[0].public_key,
        "ed25519:11111111111111111111111111111111"
    );
}

#[test]
fn transfer_key_text_matches_the_crypto_crates_own() {
    let receiver = "6c1f4e8a9b2d3c5f7a8e9d0c1b2a3f4e5d6c7b8a9f0e1d2c3b4a5f6e7d8c9b0a";
    let receipt = action_receipt("r7", receiver, vec![ActionView::Transfer]);
    let records = AccessKey::from_receipt_view(&receipt, 5, None);
    assert_eq!(records.len(), 1);
    let bytes = hex::decode(receiver).unwrap();
    let key = near_crypto::ED25519PublicKey::try_from(&bytes[..]).unwrap();
    let expected = near_crypto::PublicKey::from(key).to_string();
    assert_eq!(records[0].public_key, expected);
    assert_eq!(
        expected,
        format!("ed25519:{}", bs58::encode(&bytes).into_string())
    );
}

#[test]
fn transfer_to_short_receiver_yields_nothing() {
    let receipt = action_receipt("r8", "alice", vec![ActionView::Transfer]);
    let records = AccessKey::from_receipt_view(&receipt, 5, None);
    assert!(records.is_empty());
}

#[test]
fn transfer_to_sixty_three_chars_yields_nothing() {
    let receiver: String = std::iter::repeat('a').take(63).collect();
    let receipt = action_receipt("r9", &receiver, vec![ActionView::Transfer]);
    let records = AccessKey::from_receipt_view(&receipt, 5, None);
    assert!(records.is_empty());
}

#[test]
fn transfer_to_sixty_five_chars_yields_nothing() {
    let receiver: String = std::iter::repeat('a').take(65).collect();
    let receipt = action_receipt("r10", &receiver, vec![ActionView::Transfer]);
    let records = AccessKey::from_receipt_view(&receipt, 5, None);
    assert!(records.is_empty());
}

#[test]
fn transfer_to_non_hex_receiver_yields_nothing_and_skips_on() {
    let mut receiver: String = std::iter::repeat('0').take(63).collect();
    receiver.push('g');
    assert_eq!(receiver.len(), 64);
    let receipt = action_receipt(
        "r11",
        &receiver,
        vec![
            ActionView::Transfer,
            ActionView::AddKey {
                public_key: "ed25519:FFF".to_owned(),
                permission: AccessKeyPermissionView::FunctionCall,
            },
        ],
    );
    let records = AccessKey::from_receipt_view(&receipt, 5, None);
    // the malformed transfer is skipped, the rest of the receipt is kept
    assert_eq!(records.len(), 1);
    assert_eq!(records[0].public_key, "ed25519:FFF");
}
