use tokstat::account::Account;
use tokstat::errors::StorageError;
use tokstat::history::{QuotaSnapshot, MAX_HISTORY_SIZE};
use tokstat::quota::{QuotaInfo, TokenLimits, TokenUsage};
use tokstat::storage::SecureStorage;

fn account(name: &str, provider: &str, ts: i64) -> Account {
    Account {
        name: String::from(name),
        provider: String::from(provider),
        email: None,
        created_at: ts,
        last_updated: ts,
    }
}

fn quota_with(tokens: Option<u64>, requests: Option<u64>, cost: Option<u64>, ts: i64) -> QuotaInfo {
    QuotaInfo {
        provider: String::from("copilot"),
        account_name: String::new(),
        usage: TokenUsage { tokens_used: tokens, requests_made: requests, cost_micros: cost },
        limits: Some(TokenLimits { max_tokens: None, max_requests: None, max_cost_micros: None }),
        reset_date: None,
        last_updated: ts,
    }
}

#[test]
fn save_account_twice_keeps_one_entry() {
    let mut storage = SecureStorage::new();
    storage.save_account(account("work", "copilot", 10));
    storage.save_account(account("work", "copilot", 10));
    let accounts = storage.list_accounts();
    assert_eq!(accounts.len(), 1);
    assert_eq!(accounts[0].name, "work");
}

#[test]
fn save_account_replaces_by_name_and_appends() {
    let mut storage = SecureStorage::new();
    storage.save_account(account("a", "copilot", 1));
    storage.save_account(account("b", "openrouter", 2));
    storage.save_account(account("a", "copilot", 3));
    let accounts = storage.list_accounts();
    assert_eq!(accounts.len(), 2);
    assert_eq!(accounts[0].name, "b");
    assert_eq!(accounts[1].name, "a");
    assert_eq!(accounts[1].last_updated, 3);
}

#[test]
fn rename_collision_fails_and_changes_nothing() {
    let mut storage = SecureStorage::new();
    storage.store_credentials(&String::from("a"), &String::from("blob-a")).unwrap();
    storage.save_account(account("a", "copilot", 1));
    storage.store_credentials(&String::from("b"), &String::from("blob-b")).unwrap();
    storage.save_account(account("b", "openrouter", 2));
    let err = storage.rename_account(&String::from("a"), &String::from("b"), 9).unwrap_err();
    assert_eq!(err, StorageError::AlreadyExists);
    let accounts = storage.list_accounts();
    assert_eq!(accounts.len(), 2);
    assert_eq!(accounts[0].name, "a");
    assert_eq!(accounts[1].name, "b");
    assert_eq!(storage.get_credentials(&String::from("a")).unwrap(), "blob-a");
    assert_eq!(storage.get_credentials(&String::from("b")).unwrap(), "blob-b");
}

#[test]
fn rename_with_vault_down_leaves_index_unchanged() {
    let mut storage = SecureStorage::new();
    storage.store_credentials(&String::from("a"), &String::from("blob-a")).unwrap();
    storage.save_account(account("a", "copilot", 1));
    storage.set_vault_available(false);
    let err = storage.rename_account(&String::from("a"), &String::from("z"), 9).unwrap_err();
    assert_eq!(err, StorageError::StorageIo);
    let accounts = storage.list_accounts();
    assert_eq!(accounts.len(), 1);
    assert_eq!(accounts[0].name, "a");
    storage.set_vault_available(true);
    assert_eq!(storage.get_credentials(&String::from("a")).unwrap(), "blob-a");
}

#[test]
fn rename_moves_credential_history_and_index_entry() {
    let mut storage = SecureStorage::new();
    storage.store_credentials(&String::from("a"), &String::from("blob-a")).unwrap();
    storage.save_account(account("a", "copilot", 1));
    let changed = storage
        .add_quota_snapshot(&String::from("a"), &quota_with(Some(5), None, None, 2))
        .unwrap();
    assert!(changed);
    storage.rename_account(&String::from("a"), &String::from("z"), 9).unwrap();
    let accounts = storage.list_accounts();
    assert_eq!(accounts.len(), 1);
    assert_eq!(accounts[0].name, "z");
    assert_eq!(accounts[0].last_updated, 9);
    assert_eq!(accounts[0].created_at, 1);
    assert_eq!(storage.get_credentials(&String::from("z")).unwrap(), "blob-a");
    assert_eq!(
        storage.get_credentials(&String::from("a")).unwrap_err(),
        StorageError::NotFound
    );
    assert_eq!(storage.get_quota_history(&String::from("z")).len(), 1);
    assert_eq!(storage.get_quota_history(&String::from("a")).len(), 0);
}

#[test]
fn rename_missing_account_fails_not_found() {
    let mut storage = SecureStorage::new();
    let err = storage.rename_account(&String::from("a"), &String::from("z"), 9).unwrap_err();
    assert_eq!(err, StorageError::NotFound);
}

#[test]
fn rename_to_same_name_is_a_no_op() {
    let mut storage = SecureStorage::new();
    storage.store_credentials(&String::from("a"), &String::from("blob")).unwrap();
    storage.save_account(account("a", "copilot", 1));
    storage.rename_account(&String::from("a"), &String::from("a"), 9).unwrap();
    let accounts = storage.list_accounts();
    assert_eq!(accounts[0].last_updated, 1);
}

#[test]
fn history_cap_evicts_oldest() {
    let mut storage = SecureStorage::new();
    let name = String::from("a");
    let n = MAX_HISTORY_SIZE as u64;
    for i in 0..(n + 1) {
        let changed = storage
            .add_quota_snapshot(&name, &quota_with(Some(i), None, None, i as i64))
            .unwrap();
        assert!(changed);
    }
    let history = storage.get_quota_history(&name);
    assert_eq!(history.len(), MAX_HISTORY_SIZE);
    // The oldest snapshot (tokens_used == 0) was evicted; the newest is present.
    assert_eq!(history[0].tokens_used, Some(1));
    assert_eq!(history[MAX_HISTORY_SIZE - 1].tokens_used, Some(n));
}

#[test]
fn history_dedup_ignores_repeated_usage() {
    let mut storage = SecureStorage::new();
    let name = String::from("a");
    let changed = storage
        .add_quota_snapshot(&name, &quota_with(Some(7), Some(3), Some(10), 1))
        .unwrap();
    assert!(changed);
    // Same tokens/requests/cost, later timestamp: a no-op.
    let changed = storage
        .add_quota_snapshot(&name, &quota_with(Some(7), Some(3), Some(10), 2))
        .unwrap();
    assert!(!changed);
    assert_eq!(storage.get_quota_history(&name).len(), 1);
    // A change in any usage dimension is appended.
    let changed = storage
        .add_quota_snapshot(&name, &quota_with(Some(7), Some(4), Some(10), 3))
        .unwrap();
    assert!(changed);
    assert_eq!(storage.get_quota_history(&name).len(), 2);
}

#[test]
fn add_snapshot_with_history_down_fails_only_when_it_would_change() {
    let mut storage = SecureStorage::new();
    let name = String::from("a");
    storage.add_quota_snapshot(&name, &quota_with(Some(1), None, None, 1)).unwrap();
    storage.set_history_available(false);
    // A repeat is still a successful no-op.
    let changed = storage.add_quota_snapshot(&name, &quota_with(Some(1), None, None, 2)).unwrap();
    assert!(!changed);
    // A new observation cannot be persisted.
    let err = storage.add_quota_snapshot(&name, &quota_with(Some(2), None, None, 3)).unwrap_err();
    assert_eq!(err, StorageError::StorageIo);
    assert_eq!(storage.get_quota_history(&name).len(), 1);
}

#[test]
fn remove_account_cascades() {
    let mut storage = SecureStorage::new();
    let name = String::from("a");
    storage.store_credentials(&name, &String::from("blob")).unwrap();
    storage.save_account(account("a", "copilot", 1));
    storage.add_quota_snapshot(&name, &quota_with(Some(1), None, None, 1)).unwrap();
    storage.remove_account(&name).unwrap();
    assert_eq!(storage.list_accounts().len(), 0);
    assert_eq!(storage.get_credentials(&name).unwrap_err(), StorageError::NotFound);
    assert_eq!(storage.get_quota_history(&name).len(), 0);
    assert_eq!(storage.get_account(&name).unwrap_err(), StorageError::NotFound);
}

#[test]
fn remove_account_succeeds_when_history_removal_fails() {
    let mut storage = SecureStorage::new();
    let name = String::from("a");
    storage.store_credentials(&name, &String::from("blob")).unwrap();
    storage.save_account(account("a", "copilot", 1));
    storage.add_quota_snapshot(&name, &quota_with(Some(1), None, None, 1)).unwrap();
    storage.set_history_available(false);
    storage.remove_account(&name).unwrap();
    assert_eq!(storage.list_accounts().len(), 0);
    assert_eq!(storage.get_credentials(&name).unwrap_err(), StorageError::NotFound);
}

#[test]
fn remove_missing_account_fails_not_found() {
    let mut storage = SecureStorage::new();
    let err = storage.remove_account(&String::from("ghost")).unwrap_err();
    assert_eq!(err, StorageError::NotFound);
}

#[test]
fn delete_credentials_is_idempotent() {
    let mut storage = SecureStorage::new();
    let name = String::from("a");
    storage.delete_credentials(&name).unwrap();
    storage.store_credentials(&name, &String::from("blob")).unwrap();
    storage.delete_credentials(&name).unwrap();
    storage.delete_credentials(&name).unwrap();
    assert_eq!(storage.get_credentials(&name).unwrap_err(), StorageError::NotFound);
}

#[test]
fn credentials_fail_while_vault_down() {
    let mut storage = SecureStorage::new();
    let name = String::from("a");
    storage.set_vault_available(false);
    assert_eq!(
        storage.store_credentials(&name, &String::from("b")).unwrap_err(),
        StorageError::StorageIo
    );
    assert_eq!(storage.get_credentials(&name).unwrap_err(), StorageError::StorageIo);
    assert_eq!(storage.delete_credentials(&name).unwrap_err(), StorageError::StorageIo);
}

#[test]
fn save_accounts_order_rejects_duplicates() {
    let mut storage = SecureStorage::new();
    storage.save_account(account("a", "copilot", 1));
    let err = storage
        .save_accounts_order(vec![account("x", "copilot", 1), account("x", "copilot", 2)])
        .unwrap_err();
    assert_eq!(err, StorageError::Validation);
    assert_eq!(storage.list_accounts()[0].name, "a");
    storage
        .save_accounts_order(vec![account("y", "copilot", 1), account("x", "copilot", 2)])
        .unwrap();
    let accounts = storage.list_accounts();
    assert_eq!(accounts[0].name, "y");
    assert_eq!(accounts[1].name, "x");
}

#[test]
fn snapshots_compare_by_usage_not_time() {
    let q = quota_with(Some(7), Some(3), Some(10), 1);
    let snap = QuotaSnapshot::from_quota_info(&q);
    assert_eq!(snap.timestamp, 1);
    assert_eq!(snap.tokens_used, Some(7));
    assert_eq!(snap.requests_made, Some(3));
    assert_eq!(snap.cost_micros, Some(10));
    let later_same = QuotaSnapshot::from_quota_info(&quota_with(Some(7), Some(3), Some(10), 9));
    assert!(!later_same.has_changed_from(&snap));
    let different = QuotaSnapshot::from_quota_info(&quota_with(Some(8), Some(3), Some(10), 9));
    assert!(different.has_changed_from(&snap));
}

#[test]
fn get_account_returns_the_record() {
    let mut storage = SecureStorage::new();
    storage.save_account(account("a", "openrouter", 4));
    let a = storage.get_account(&String::from("a")).unwrap();
    assert_eq!(a.provider, "openrouter");
    assert_eq!(a.created_at, 4);
}
