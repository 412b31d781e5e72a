use vstd::prelude::*;

verus! {

/// One configured account: the unique name keys the credential vault
/// and the quota history as well. Timestamps are seconds since the
/// Unix epoch.
#[derive(Debug)]
pub struct Account {
    pub name: String,
    pub provider: String,
    pub email: Option<String>,
    pub created_at: i64,
    pub last_updated: i64,
}

impl Clone for Account {
    fn clone(&self) -> (r: Self)
        ensures
            r == self,
    {
        Account {
            name: self.name.clone(),
            provider: self.provider.clone(),
            email: match &self.email {
                Some(e) => Some(e.clone()),
                None => None,
            },
            created_at: self.created_at,
            last_updated: self.last_updated,
        }
    }
}

} // verus!
