use tokstat::account::Account;
use tokstat::errors::{FetchError, ProviderError, StorageError};
use tokstat::providers::{
    copilot_quota, copilot_status_error, copilot_usage, openrouter_quota, prepare_quota_fetch,
    resolve_provider, CopilotCredentials, CopilotProvider, OpenRouterProvider, ProviderKind,
};
use tokstat::storage::SecureStorage;

#[test]
fn provider_names_are_fixed() {
    assert_eq!(CopilotProvider.provider_name(), "copilot");
    assert_eq!(OpenRouterProvider.provider_name(), "openrouter");
}

#[test]
fn provider_tags_resolve_to_adapters() {
    assert_eq!(resolve_provider("copilot"), Some(ProviderKind::Copilot));
    assert_eq!(resolve_provider("openrouter"), Some(ProviderKind::OpenRouter));
    assert_eq!(resolve_provider("something-else"), None);
}

#[test]
fn copilot_usage_subtracts_remaining_from_entitlement() {
    assert_eq!(copilot_usage(false, Some(300), Some(280)), (Some(20), Some(300)));
    // The difference never goes negative.
    assert_eq!(copilot_usage(false, Some(10), Some(15)), (Some(0), Some(10)));
    // An unlimited plan reports nothing.
    assert_eq!(copilot_usage(true, Some(300), Some(280)), (None, None));
    // Missing fields report nothing.
    assert_eq!(copilot_usage(false, Some(300), None), (None, None));
    assert_eq!(copilot_usage(false, None, Some(280)), (None, None));
}

#[test]
fn copilot_quota_shape() {
    let q = copilot_quota(Some(20), Some(300), Some(777), 55);
    assert_eq!(q.provider, "copilot");
    assert_eq!(q.account_name, "");
    assert_eq!(q.usage.requests_made, Some(20));
    assert_eq!(q.usage.tokens_used, None);
    assert_eq!(q.usage.cost_micros, None);
    assert_eq!(q.limits.unwrap().max_requests, Some(300));
    assert_eq!(q.reset_date, Some(777));
    assert_eq!(q.last_updated, 55);
}

#[test]
fn openrouter_quota_shape() {
    let q = openrouter_quota(2_500_000, Some(10_000_000), 66);
    assert_eq!(q.provider, "openrouter");
    assert_eq!(q.usage.cost_micros, Some(2_500_000));
    assert_eq!(q.usage.requests_made, None);
    assert_eq!(q.limits.unwrap().max_cost_micros, Some(10_000_000));
    assert_eq!(q.reset_date, None);
    assert_eq!(q.last_updated, 66);
}

#[test]
fn copilot_status_codes_map_to_errors() {
    assert_eq!(copilot_status_error(404), ProviderError::NotSupportedByVendor);
    assert_eq!(copilot_status_error(401), ProviderError::Unauthorized);
    assert_eq!(copilot_status_error(403), ProviderError::Unauthorized);
    assert_eq!(copilot_status_error(500), ProviderError::Upstream(500));
}

#[test]
fn expired_copilot_token_is_unusable() {
    let creds = CopilotCredentials {
        access_token: String::from("tok"),
        refresh_token: String::new(),
        expires_at: 100,
    };
    assert!(creds.usable_at(99));
    assert!(!creds.usable_at(100));
    assert!(!creds.usable_at(101));
}

fn account(name: &str, provider: &str) -> Account {
    Account {
        name: String::from(name),
        provider: String::from(provider),
        email: None,
        created_at: 0,
        last_updated: 0,
    }
}

#[test]
fn prepare_fetch_returns_kind_and_credential() {
    let mut storage = SecureStorage::new();
    storage
        .store_credentials(&String::from("a"), &String::from("blob"))
        .unwrap();
    let (kind, blob) = prepare_quota_fetch(&storage, &account("a", "copilot")).unwrap();
    assert_eq!(kind, ProviderKind::Copilot);
    assert_eq!(blob, "blob");
}

#[test]
fn prepare_fetch_fails_without_credential() {
    let storage = SecureStorage::new();
    let err = prepare_quota_fetch(&storage, &account("a", "copilot")).unwrap_err();
    assert_eq!(err, FetchError::Storage(StorageError::NotFound));
}

#[test]
fn prepare_fetch_fails_on_unknown_provider() {
    let mut storage = SecureStorage::new();
    storage
        .store_credentials(&String::from("a"), &String::from("blob"))
        .unwrap();
    let err = prepare_quota_fetch(&storage, &account("a", "mystery")).unwrap_err();
    assert_eq!(err, FetchError::Provider(ProviderError::NotSupportedByVendor));
}

#[test]
fn prepare_fetch_fails_while_vault_down() {
    let mut storage = SecureStorage::new();
    storage
        .store_credentials(&String::from("a"), &String::from("blob"))
        .unwrap();
    storage.set_vault_available(false);
    let err = prepare_quota_fetch(&storage, &account("a", "copilot")).unwrap_err();
    assert_eq!(err, FetchError::Storage(StorageError::StorageIo));
}

#[test]
fn fetch_error_messages_come_from_the_wrapped_error() {
    assert_eq!(
        FetchError::Provider(ProviderError::CredentialExpired).message(),
        "credential expired, please login again"
    );
    assert_eq!(
        FetchError::Storage(StorageError::NotFound).message(),
        "account not found"
    );
}
