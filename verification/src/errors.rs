use vstd::prelude::*;

verus! {

/// Failures of the storage layer: the account index, the credential
/// vault and the quota history log.
#[derive(Debug, Clone, Copy, PartialEq, Eq, Structural)]
pub enum StorageError {
    /// The named account or credential does not exist.
    NotFound,
    /// A rename would collide with an existing account name.
    AlreadyExists,
    /// The host secret store or a backing document is unavailable.
    StorageIo,
    /// The input was rejected before any store was touched.
    Validation,
}

impl StorageError {
    /// What `message` answers for each variant.
    pub open spec fn spec_message(&self) -> Seq<char> {
        match self {
            StorageError::NotFound => "account not found"@,
            StorageError::AlreadyExists => "an account with that name already exists"@,
            StorageError::StorageIo => "storage unavailable"@,
            StorageError::Validation => "invalid input"@,
        }
    }

    /// A short human-readable description, since the verifier refuses
    /// a `Display` impl on library types.
    pub fn message(&self) -> (r: &'static str)
        ensures
            r@ == self.spec_message(),
    {
        match self {
            StorageError::NotFound => "account not found",
            StorageError::AlreadyExists => "an account with that name already exists",
            StorageError::StorageIo => "storage unavailable",
            StorageError::Validation => "invalid input",
        }
    }
}

/// Failures of a provider adapter while fetching a quota snapshot.
#[derive(Debug, Clone, Copy, PartialEq, Eq, Structural)]
pub enum ProviderError {
    /// The stored credential has passed its expiry time.
    CredentialExpired,
    /// The provider rejected the credential.
    Unauthorized,
    /// The account's provider tag names no supported provider, or the
    /// provider offers no usage endpoint.
    NotSupportedByVendor,
    /// The provider answered with a non-success status code.
    Upstream(u16),
}

impl ProviderError {
    /// What `message` answers for each variant.
    pub open spec fn spec_message(&self) -> Seq<char> {
        match self {
            ProviderError::CredentialExpired => "credential expired, please login again"@,
            ProviderError::Unauthorized => "access denied by provider"@,
            ProviderError::NotSupportedByVendor => "not supported by this provider"@,
            ProviderError::Upstream(_) => "provider request failed"@,
        }
    }

    pub fn message(&self) -> (r: &'static str)
        ensures
            r@ == self.spec_message(),
    {
        match self {
            ProviderError::CredentialExpired => "credential expired, please login again",
            ProviderError::Unauthorized => "access denied by provider",
            ProviderError::NotSupportedByVendor => "not supported by this provider",
            ProviderError::Upstream(_) => "provider request failed",
        }
    }
}

/// A failure while fetching a quota: either the storage layer could
/// not produce the credential, or the provider refused the request.
#[derive(Debug, Clone, Copy, PartialEq, Eq, Structural)]
pub enum FetchError {
    Storage(StorageError),
    Provider(ProviderError),
}

impl FetchError {
    /// What `message` answers: the wrapped error's description.
    pub open spec fn spec_message(&self) -> Seq<char> {
        match self {
            FetchError::Storage(e) => e.spec_message(),
            FetchError::Provider(e) => e.spec_message(),
        }
    }

    pub fn message(&self) -> (r: &'static str)
        ensures
            r@ == self.spec_message(),
    {
        match self {
            FetchError::Storage(e) => e.message(),
            FetchError::Provider(e) => e.message(),
        }
    }
}

} // verus!
