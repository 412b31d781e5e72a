use vstd::prelude::*;
use crate::account::Account;
use crate::errors::{FetchError, ProviderError, StorageError};
use crate::quota::{QuotaInfo, TokenLimits, TokenUsage};
use crate::storage::SecureStorage;
use crate::text::str_eq;

verus! {

broadcast use vstd::string::group_string_axioms;

/// The closed set of supported providers.
#[derive(Debug, Clone, Copy, PartialEq, Eq, Structural)]
pub enum ProviderKind {
    Copilot,
    OpenRouter,
}

/// The GitHub Copilot adapter: subscription-based, it reports premium
/// request usage and no token or cost figures.
#[derive(Debug)]
pub struct CopilotProvider;

/// The OpenRouter adapter: credit-based, it reports spent cost and an
/// optional credit limit, and no token or request figures.
#[derive(Debug)]
pub struct OpenRouterProvider;

impl CopilotProvider {
    pub fn provider_name(&self) -> (r: &'static str)
        ensures
            r@ == "copilot"@,
    {
        "copilot"
    }
}

impl OpenRouterProvider {
    pub fn provider_name(&self) -> (r: &'static str)
        ensures
            r@ == "openrouter"@,
    {
        "openrouter"
    }
}

/// The credential blob a Copilot login stores, as the library reads
/// it: the tokens and the expiry instant in Unix seconds. The wire
/// form is provider-specific JSON the embedding decodes.
#[derive(Debug)]
pub struct CopilotCredentials {
    pub access_token: String,
    pub refresh_token: String,
    pub expires_at: i64,
}

/// The credential an OpenRouter login stores: a bare API key.
#[derive(Debug)]
pub struct OpenRouterCredentials {
    pub api_key: String,
}

/// Map an account's provider tag to its adapter.
pub fn resolve_provider(tag: &str) -> (r: Option<ProviderKind>)
    ensures
        tag@ == "copilot"@ ==> r == Some(ProviderKind::Copilot),
        tag@ == "openrouter"@ ==> r == Some(ProviderKind::OpenRouter),
        tag@ != "copilot"@ && tag@ != "openrouter"@ ==> r is None,
{
    proof {
        reveal_strlit("copilot");
        reveal_strlit("openrouter");
        assert("copilot"@.len() == 7);
        assert("openrouter"@.len() == 10);
        assert("copilot"@ != "openrouter"@);
    }
    if str_eq(tag, "copilot") {
        Some(ProviderKind::Copilot)
    } else if str_eq(tag, "openrouter") {
        Some(ProviderKind::OpenRouter)
    } else {
        None
    }
}

impl CopilotCredentials {
    /// Whether the stored access token is still usable at `now`; an
    /// expired token must not be sent, the user logs in again.
    pub fn usable_at(&self, now: i64) -> (r: bool)
        ensures
            r == (now < self.expires_at),
    {
        now < self.expires_at
    }
}

/// What a Copilot usage response reports for premium interactions: an
/// unlimited plan reports no numbers; otherwise, when both the
/// entitlement and the remaining count are present, used is their
/// difference — never negative — and the entitlement is the limit.
pub open spec fn copilot_usage_spec(
    unlimited: bool,
    entitlement: Option<u64>,
    remaining: Option<u64>,
) -> (Option<u64>, Option<u64>) {
    if unlimited {
        (None, None)
    } else {
        match (entitlement, remaining) {
            (Some(e), Some(rm)) => (Some(if e >= rm { (e - rm) as u64 } else { 0u64 }), Some(e)),
            _ => (None, None),
        }
    }
}

pub fn copilot_usage(unlimited: bool, entitlement: Option<u64>, remaining: Option<u64>) -> (r: (
    Option<u64>,
    Option<u64>,
))
    ensures
        r == copilot_usage_spec(unlimited, entitlement, remaining),
{
    if unlimited {
        (None, None)
    } else {
        match (entitlement, remaining) {
            (Some(e), Some(rm)) => {
                let used = if e >= rm {
                    e - rm
                } else {
                    0
                };
                (Some(used), Some(e))
            },
            _ => (None, None),
        }
    }
}

/// The normalized snapshot a Copilot fetch yields.
pub fn copilot_quota(
    premium_used: Option<u64>,
    premium_limit: Option<u64>,
    reset_date: Option<i64>,
    now: i64,
) -> (q: QuotaInfo)
    ensures
        q.provider@ == "copilot"@,
        q.account_name@.len() == 0,
        q.usage == (TokenUsage { tokens_used: None, requests_made: premium_used, cost_micros: None }),
        q.limits == Some(
            TokenLimits { max_tokens: None, max_requests: premium_limit, max_cost_micros: None },
        ),
        q.reset_date == reset_date,
        q.last_updated == now,
{
    QuotaInfo {
        provider: String::from_str("copilot"),
        account_name: String::new(),
        usage: TokenUsage { tokens_used: None, requests_made: premium_used, cost_micros: None },
        limits: Some(
            TokenLimits { max_tokens: None, max_requests: premium_limit, max_cost_micros: None },
        ),
        reset_date,
        last_updated: now,
    }
}

/// The normalized snapshot an OpenRouter fetch yields: spent credit
/// and the optional credit limit, in millionths of a credit.
pub fn openrouter_quota(usage_micros: u64, limit_micros: Option<u64>, now: i64) -> (q: QuotaInfo)
    ensures
        q.provider@ == "openrouter"@,
        q.account_name@.len() == 0,
        q.usage == (TokenUsage {
            tokens_used: None,
            requests_made: None,
            cost_micros: Some(usage_micros),
        }),
        q.limits == Some(
            TokenLimits { max_tokens: None, max_requests: None, max_cost_micros: limit_micros },
        ),
        q.reset_date is None,
        q.last_updated == now,
{
    QuotaInfo {
        provider: String::from_str("openrouter"),
        account_name: String::new(),
        usage: TokenUsage { tokens_used: None, requests_made: None, cost_micros: Some(usage_micros) },
        limits: Some(
            TokenLimits { max_tokens: None, max_requests: None, max_cost_micros: limit_micros },
        ),
        reset_date: None,
        last_updated: now,
    }
}

/// The error a Copilot usage request maps a non-success status to:
/// the endpoint is not public (404), the token lacks permission (401,
/// 403), or a generic upstream failure.
pub fn copilot_status_error(status: u16) -> (e: ProviderError)
    ensures
        status == 404 ==> e == ProviderError::NotSupportedByVendor,
        status == 401 || status == 403 ==> e == ProviderError::Unauthorized,
        !(status == 404 || status == 401 || status == 403) ==> e == ProviderError::Upstream(
            status,
        ),
{
    if status == 404 {
        ProviderError::NotSupportedByVendor
    } else if status == 401 || status == 403 {
        ProviderError::Unauthorized
    } else {
        ProviderError::Upstream(status)
    }
}

/// The gateway's preparation of a fetch: retrieve the account's
/// credential from the vault, then resolve its provider tag. The
/// embedding performs the network call with what this returns.
pub fn prepare_quota_fetch(storage: &SecureStorage, account: &Account) -> (r: Result<
    (ProviderKind, String),
    FetchError,
>)
    requires
        storage.wf(),
    ensures
        match r {
            Ok((kind, blob)) => {
                &&& storage.vault.is_available()
                &&& storage.vault.spec_get(account.name@) == Some(blob@)
                &&& (kind == ProviderKind::Copilot <==> account.provider@ == "copilot"@)
                &&& (kind == ProviderKind::OpenRouter <==> account.provider@ == "openrouter"@)
            },
            Err(e) => match e {
                FetchError::Storage(se) => (!storage.vault.is_available() && se
                    == StorageError::StorageIo) || (storage.vault.is_available()
                    && storage.vault.spec_get(account.name@) is None && se
                    == StorageError::NotFound),
                FetchError::Provider(pe) => pe == ProviderError::NotSupportedByVendor
                    && storage.vault.is_available() && storage.vault.spec_get(
                    account.name@,
                ) is Some && account.provider@ != "copilot"@ && account.provider@
                    != "openrouter"@,
            },
        },
{
    let blob = match storage.get_credentials(&account.name) {
        Ok(b) => b,
        Err(e) => {
            return Err(FetchError::Storage(e));
        },
    };
    match resolve_provider(account.provider.as_str()) {
        Some(kind) => Ok((kind, blob)),
        None => Err(FetchError::Provider(ProviderError::NotSupportedByVendor)),
    }
}

} // verus!
