use indexer_for_wallet::access_keys::AccessKey;
use indexer_for_wallet::bulk::{
    chunks_of, insert_in_chunks, progress_percent, retry_decision, RetryDecision, RetryPolicy,
    INSERT_CHUNK_SIZE, RETRY_INTERVAL_MILLIS,
};
use indexer_for_wallet::enums::{AccessKeyAction, AccessKeyPermission, ExecutionStatus};
use indexer_for_wallet::store::AccessKeysTable;

fn numbered_records(n: usize) -> Vec<AccessKey> {
    (0..n)
        .map(|i| AccessKey {
            public_key: format!("pk{}", i),
            account_id: "alice".to_owned(),
            action: AccessKeyAction::Add,
            status: ExecutionStatus::Success,
            receipt_hash: "genesis".to_owned(),
            block_height: 1,
            permission: AccessKeyPermission::FullAccess,
        })
        .collect()
}

#[test]
fn twelve_thousand_records_make_three_chunks_of_five_thousand() {
    let chunks = chunks_of(numbered_records(12_000), INSERT_CHUNK_SIZE);
    assert_eq!(chunks.len(), 3);
    assert_eq!(chunks[0].len(), 5_000);
    assert_eq!(chunks[1].len(), 5_000);
    assert_eq!(chunks[2].len(), 2_000);
}

#[test]
fn chunking_keeps_every_record_in_order() {
    let chunks = chunks_of(numbered_records(7), 3);
    assert_eq!(chunks.len(), 3);
    let flat: Vec<String> = chunks
        .iter()
        .flat_map(|c| c.iter().map(|r| r.public_key.clone()))
        .collect();
    let expected: Vec<String> = (0..7).map(|i| format!("pk{}", i)).collect();
    assert_eq!(flat, expected);
}

#[test]
fn an_empty_batch_makes_no_chunk() {
    let chunks = chunks_of(Vec::new(), 5);
    assert!(chunks.is_empty());
}

#[test]
fn an_exact_multiple_makes_full_chunks_only() {
    let chunks = chunks_of(numbered_records(10), 5);
    assert_eq!(chunks.len(), 2);
    assert!(chunks.iter().all(|c| c.len() == 5));
}

#[test]
fn a_transient_failure_on_one_chunk_leaves_no_duplicates() {
    let mut table = AccessKeysTable::new();
    let mut chunks = chunks_of(numbered_records(12_000), 5_000);
    let third = chunks.pop().unwrap();
    let second = chunks.pop().unwrap();
    let first = chunks.pop().unwrap();
    table.insert_on_conflict_do_nothing(first);
    // the second chunk's first attempt fails after commit, so the retry
    // delivers the same chunk again
    table.insert_on_conflict_do_nothing(second.clone());
    table.insert_on_conflict_do_nothing(second);
    table.insert_on_conflict_do_nothing(third);
    assert_eq!(table.len(), 12_000);
}

#[test]
fn chunked_insert_equals_one_whole_insert() {
    let mut chunked = AccessKeysTable::new();
    let submitted = insert_in_chunks(&mut chunked, numbered_records(12_000), 5_000);
    assert_eq!(submitted, 3);
    assert_eq!(chunked.len(), 12_000);

    let mut whole = AccessKeysTable::new();
    whole.insert_on_conflict_do_nothing(numbered_records(12_000));
    assert_eq!(whole.len(), 12_000);
    for (a, b) in chunked.rows().iter().zip(whole.rows().iter()) {
        assert_eq!(a.public_key, b.public_key);
        assert_eq!(a.receipt_hash, b.receipt_hash);
    }
}

#[test]
fn unbounded_policy_always_retries_after_the_fixed_delay() {
    for attempts in [0u64, 1, 10, 1_000_000] {
        assert_eq!(
            retry_decision(RetryPolicy::Unbounded, attempts),
            RetryDecision::RetryAfterDelay { delay_millis: RETRY_INTERVAL_MILLIS }
        );
    }
}

#[test]
fn limited_policy_gives_up_after_its_attempts() {
    let policy = RetryPolicy::Limited { max_attempts: 10 };
    assert_eq!(
        retry_decision(policy, 9),
        RetryDecision::RetryAfterDelay { delay_millis: 100 }
    );
    assert_eq!(retry_decision(policy, 10), RetryDecision::GiveUp);
    assert_eq!(retry_decision(policy, 11), RetryDecision::GiveUp);
}

#[test]
fn progress_is_a_whole_percentage() {
    assert_eq!(progress_percent(0, 3), 0);
    assert_eq!(progress_percent(1, 3), 33);
    assert_eq!(progress_percent(2, 3), 66);
    assert_eq!(progress_percent(3, 3), 100);
    assert_eq!(progress_percent(1, 1), 100);
}
