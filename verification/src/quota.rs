use vstd::prelude::*;

verus! {

/// Usage reported by a provider. Any dimension a provider cannot
/// report is `None`. Cost is held in millionths of the provider's
/// billing unit, so that the storage layer can compare it exactly.
#[derive(Debug, Clone, Copy)]
pub struct TokenUsage {
    pub tokens_used: Option<u64>,
    pub requests_made: Option<u64>,
    pub cost_micros: Option<u64>,
}

/// Limits reported by a provider, in the same units as `TokenUsage`.
#[derive(Debug, Clone, Copy)]
pub struct TokenLimits {
    pub max_tokens: Option<u64>,
    pub max_requests: Option<u64>,
    pub max_cost_micros: Option<u64>,
}

/// The normalized result of one live quota fetch. Transient: it is
/// not persisted, only its usage part is snapshotted into the history.
/// Timestamps are seconds since the Unix epoch.
#[derive(Debug)]
pub struct QuotaInfo {
    pub provider: String,
    pub account_name: String,
    pub usage: TokenUsage,
    pub limits: Option<TokenLimits>,
    pub reset_date: Option<i64>,
    pub last_updated: i64,
}

impl Clone for QuotaInfo {
    fn clone(&self) -> (r: Self)
        ensures
            r == self,
    {
        QuotaInfo {
            provider: self.provider.clone(),
            account_name: self.account_name.clone(),
            usage: self.usage,
            limits: self.limits,
            reset_date: self.reset_date,
            last_updated: self.last_updated,
        }
    }
}

} // verus!
