use vstd::prelude::*;
use crate::account::Account;
use crate::errors::StorageError;
use crate::history::{QuotaHistory, QuotaSnapshot, capped_push, append_changes, snapshot_of};
use crate::quota::QuotaInfo;
use crate::vault::Vault;

verus! {

/// `s` without every account named `name`, order preserved.
pub open spec fn drop_account(s: Seq<Account>, name: Seq<char>) -> Seq<Account>
    decreases s.len(),
{
    if s.len() == 0 {
        s
    } else {
        let rest = drop_account(s.drop_last(), name);
        if s.last().name@ == name {
            rest
        } else {
            rest.push(s.last())
        }
    }
}

/// How many entries of `s` are named `name`.
pub open spec fn count_named(s: Seq<Account>, name: Seq<char>) -> nat
    decreases s.len(),
{
    if s.len() == 0 {
        0
    } else {
        count_named(s.drop_last(), name) + if s.last().name@ == name {
            1nat
        } else {
            0nat
        }
    }
}

/// Replace-or-append by name: the index after saving `account`.
pub open spec fn upsert_spec(s: Seq<Account>, account: Account) -> Seq<Account> {
    drop_account(s, account.name@).push(account)
}

/// `s` without the history record of `name`, order preserved.
pub open spec fn drop_history(s: Seq<QuotaHistory>, name: Seq<char>) -> Seq<QuotaHistory>
    decreases s.len(),
{
    if s.len() == 0 {
        s
    } else {
        let rest = drop_history(s.drop_last(), name);
        if s.last().account_name@ == name {
            rest
        } else {
            rest.push(s.last())
        }
    }
}

/// Whether some entry of `s` is named `name`.
pub open spec fn index_has(s: Seq<Account>, name: Seq<char>) -> bool {
    exists|i: int| 0 <= i < s.len() && s[i].name@ == name
}

/// The position of the entry named `name`.
pub open spec fn index_pos(s: Seq<Account>, name: Seq<char>) -> int {
    choose|i: int| 0 <= i < s.len() && s[i].name@ == name
}

/// Whether `s` holds a history record keyed `name`.
pub open spec fn hist_has(s: Seq<QuotaHistory>, name: Seq<char>) -> bool {
    exists|i: int| 0 <= i < s.len() && s[i].account_name@ == name
}

/// The position of the history record keyed `name`.
pub open spec fn hist_pos(s: Seq<QuotaHistory>, name: Seq<char>) -> int {
    choose|i: int| 0 <= i < s.len() && s[i].account_name@ == name
}

/// The snapshots stored under `name`, empty when there is no record.
pub open spec fn hist_at(s: Seq<QuotaHistory>, name: Seq<char>) -> Seq<QuotaSnapshot> {
    if hist_has(s, name) {
        s[hist_pos(s, name)].snapshots@
    } else {
        Seq::empty()
    }
}

/// The storage facade: the account index, the credential vault and
/// the per-account quota history, composed so that save, rename and
/// removal are atomic in effect — an error from any step leaves the
/// index and the history log as they were.
///
/// The index and the history log are the in-memory contents of the
/// two backing documents; the embedding rewrites each document in
/// full after a successful mutation. `history_available` models the
/// history document becoming unwritable, which removal tolerates and
/// every other history mutation surfaces.
#[derive(Debug)]
pub struct SecureStorage {
    pub accounts: Vec<Account>,
    pub histories: Vec<QuotaHistory>,
    pub vault: Vault,
    pub history_available: bool,
}

impl SecureStorage {
    pub open spec fn has_account(&self, name: Seq<char>) -> bool {
        index_has(self.accounts@, name)
    }

    pub open spec fn account_index(&self, name: Seq<char>) -> int {
        index_pos(self.accounts@, name)
    }

    pub open spec fn account_at(&self, name: Seq<char>) -> Account {
        self.accounts@[self.account_index(name)]
    }

    pub open spec fn has_history(&self, name: Seq<char>) -> bool {
        hist_has(self.histories@, name)
    }

    /// The stored snapshots of `name`, oldest first; empty when the
    /// account has no history record.
    pub open spec fn spec_history(&self, name: Seq<char>) -> Seq<QuotaSnapshot> {
        hist_at(self.histories@, name)
    }

    /// Names are unique in the index and in the history log, every
    /// history ring is within its cap, and the vault is well formed.
    pub open spec fn wf(&self) -> bool {
        &&& forall|i: int, j: int|
            0 <= i < j < self.accounts@.len() ==> self.accounts@[i].name@
                != self.accounts@[j].name@
        &&& forall|i: int, j: int|
            0 <= i < j < self.histories@.len() ==> self.histories@[i].account_name@
                != self.histories@[j].account_name@
        &&& forall|i: int| 0 <= i < self.histories@.len() ==> (#[trigger] self.histories@[i]).wf()
        &&& self.vault.wf()
    }

    /// The error `remove_account(name)` answers, if any.
    pub open spec fn remove_err(&self, name: Seq<char>) -> Option<StorageError> {
        if !self.has_account(name) {
            Some(StorageError::NotFound)
        } else if !self.vault.is_available() {
            Some(StorageError::StorageIo)
        } else {
            None
        }
    }

    /// The error `rename_account(old_name, new_name)` answers, if
    /// any: a collision on the new name, a missing account or
    /// credential, an unreachable vault, or — after the credential
    /// has already been copied — an unwritable history document.
    pub open spec fn rename_err(&self, old_name: Seq<char>, new_name: Seq<char>) -> Option<
        StorageError,
    > {
        if old_name == new_name {
            None
        } else if self.has_account(new_name) {
            Some(StorageError::AlreadyExists)
        } else if !self.has_account(old_name) {
            Some(StorageError::NotFound)
        } else if !self.vault.is_available() {
            Some(StorageError::StorageIo)
        } else if self.vault.spec_get(old_name) is None {
            Some(StorageError::NotFound)
        } else if self.has_history(old_name) && !self.history_available {
            Some(StorageError::StorageIo)
        } else {
            None
        }
    }

    /// Whether a failing rename stopped only at the history step, the
    /// one failure that leaves the credential already migrated.
    pub open spec fn rename_fails_at_history(
        &self,
        old_name: Seq<char>,
        new_name: Seq<char>,
    ) -> bool {
        &&& old_name != new_name
        &&& !self.has_account(new_name)
        &&& self.has_account(old_name)
        &&& self.vault.is_available()
        &&& self.vault.spec_get(old_name) is Some
        &&& self.has_history(old_name)
        &&& !self.history_available
    }

    /// Whether appending `snap` for `name` would change the log.
    pub open spec fn append_would_change(&self, name: Seq<char>, snap: QuotaSnapshot) -> bool {
        append_changes(self.spec_history(name), snap)
    }

    /// An empty store backed by a reachable vault.
    pub fn new() -> (r: SecureStorage)
        ensures
            r.wf(),
            r.accounts@.len() == 0,
            r.histories@.len() == 0,
            r.vault.is_available(),
            r.history_available,
            forall|n: Seq<char>| !r.vault.contains_name(n),
    {
        SecureStorage {
            accounts: Vec::new(),
            histories: Vec::new(),
            vault: Vault::new(),
            history_available: true,
        }
    }

    /// Simulate the host secret store going down or coming back.
    pub fn set_vault_available(&mut self, available: bool)
        requires
            old(self).wf(),
        ensures
            final(self).wf(),
            final(self).accounts == old(self).accounts,
            final(self).histories == old(self).histories,
            final(self).history_available == old(self).history_available,
            final(self).vault.is_available() == available,
            forall|n: Seq<char>|
                final(self).vault.spec_get(n) == old(self).vault.spec_get(n),
    {
        self.vault.set_available(available);
    }

    /// Simulate the history document becoming unwritable or writable.
    pub fn set_history_available(&mut self, available: bool)
        requires
            old(self).wf(),
        ensures
            final(self).wf(),
            final(self).accounts == old(self).accounts,
            final(self).histories == old(self).histories,
            final(self).vault == old(self).vault,
            final(self).history_available == available,
    {
        self.history_available = available;
    }

    fn account_position(&self, name: &String) -> (r: Option<usize>)
        ensures
            match r {
                Some(i) => i < self.accounts@.len() && self.accounts@[i as int].name@ == name@,
                None => !self.has_account(name@),
            },
    {
        let mut i: usize = 0;
        let n = self.accounts.len();
        while i < n
            invariant
                i <= n,
                n == self.accounts@.len(),
                forall|j: int| 0 <= j < i ==> self.accounts@[j].name@ != name@,
            decreases n - i,
        {
            if self.accounts[i].name == *name {
                return Some(i);
            }
            i = i + 1;
        }
        None
    }

    fn history_position(&self, name: &String) -> (r: Option<usize>)
        ensures
            match r {
                Some(i) => i < self.histories@.len() && self.histories@[i as int].account_name@
                    == name@,
                None => !self.has_history(name@),
            },
    {
        let mut i: usize = 0;
        let n = self.histories.len();
        while i < n
            invariant
                i <= n,
                n == self.histories@.len(),
                forall|j: int| 0 <= j < i ==> self.histories@[j].account_name@ != name@,
            decreases n - i,
        {
            if self.histories[i].account_name == *name {
                return Some(i);
            }
            i = i + 1;
        }
        None
    }

    /// The configured accounts, in index order.
    pub fn list_accounts(&self) -> (r: Vec<Account>)
        ensures
            r@ == self.accounts@,
    {
        let mut r: Vec<Account> = Vec::new();
        let mut i: usize = 0;
        let n = self.accounts.len();
        while i < n
            invariant
                i <= n,
                n == self.accounts@.len(),
                r@ =~= self.accounts@.subrange(0, i as int),
            decreases n - i,
        {
            r.push(self.accounts[i].clone());
            assert(r@ =~= self.accounts@.subrange(0, i + 1 as int));
            i = i + 1;
        }
        assert(r@ =~= self.accounts@);
        r
    }

    /// Look the account named `name` up in the index.
    pub fn get_account(&self, name: &String) -> (r: Result<Account, StorageError>)
        requires
            self.wf(),
        ensures
            match r {
                Ok(a) => self.has_account(name@) && a == self.account_at(name@),
                Err(e) => e == StorageError::NotFound && !self.has_account(name@),
            },
    {
        match self.account_position(name) {
            Some(i) => {
                let a = self.accounts[i].clone();
                proof {
                    lemma_index_pos_unique(self.accounts@, i as int, name@);
                }
                Ok(a)
            },
            None => Err(StorageError::NotFound),
        }
    }

    /// Upsert `account` into the index by name: any entry with the
    /// same name is dropped, and the record is appended at the end.
    /// The vault and the history log are untouched; the credential is
    /// stored by the caller before the record, so a crash between the
    /// two can orphan a credential but never an account.
    pub fn save_account(&mut self, account: Account)
        requires
            old(self).wf(),
        ensures
            final(self).wf(),
            final(self).accounts@ == upsert_spec(old(self).accounts@, account),
            final(self).histories == old(self).histories,
            final(self).vault == old(self).vault,
            final(self).history_available == old(self).history_available,
            final(self).has_account(account.name@),
            final(self).account_at(account.name@) == account,
    {
        let ghost pre = self.accounts@;
        let mut kept: Vec<Account> = Vec::new();
        assert(kept@ == drop_account(pre.subrange(0, 0), account.name@));
        let mut i: usize = 0;
        let n = self.accounts.len();
        while i < n
            invariant
                i <= n,
                n == pre.len(),
                self.accounts@ == pre,
                kept@ == drop_account(pre.subrange(0, i as int), account.name@),
            decreases n - i,
        {
            if !(self.accounts[i].name == account.name) {
                kept.push(self.accounts[i].clone());
            }
            proof {
                let sub1 = pre.subrange(0, i + 1 as int);
                assert(sub1.drop_last() =~= pre.subrange(0, i as int));
                assert(sub1.last() == pre[i as int]);
                assert(kept@ == drop_account(sub1, account.name@));
            }
            i = i + 1;
        }
        assert(pre.subrange(0, n as int) =~= pre);
        kept.push(account);
        self.accounts = kept;
        proof {
            assert(self.accounts@ == upsert_spec(pre, account));
            lemma_drop_account_unique(pre, account.name@);
            lemma_drop_account_absent(pre, account.name@);
            let out = self.accounts@;
            assert forall|i: int, j: int|
                0 <= i < j < out.len() implies out[i].name@ != out[j].name@ by {
                if j == out.len() - 1 {
                    assert(out[i] == drop_account(pre, account.name@)[i]);
                }
            }
            lemma_last_named(out, account.name@);
        }
    }

    /// Store `credentials` in the vault under `account_name`,
    /// replacing any previous blob. Relays the vault's answer; the
    /// index and the history log are untouched.
    pub fn store_credentials(&mut self, account_name: &String, credentials: &String) -> (r: Result<
        (),
        StorageError,
    >)
        requires
            old(self).wf(),
        ensures
            final(self).wf(),
            final(self).accounts == old(self).accounts,
            final(self).histories == old(self).histories,
            final(self).history_available == old(self).history_available,
            final(self).vault.is_available() == old(self).vault.is_available(),
            r is Ok <==> old(self).vault.is_available(),
            r is Err ==> r == Err::<(), StorageError>(StorageError::StorageIo) && *final(self)
                == *old(self),
            r is Ok ==> final(self).vault.spec_get(account_name@) == Some(credentials@) && forall|
                n: Seq<char>,
            |
                n != account_name@ ==> final(self).vault.spec_get(n) == old(self).vault.spec_get(
                    n,
                ),
    {
        self.vault.store(account_name, credentials.clone())
    }

    /// Retrieve the credential blob stored under `account_name`.
    pub fn get_credentials(&self, account_name: &String) -> (r: Result<String, StorageError>)
        requires
            self.wf(),
        ensures
            match r {
                Ok(blob) => self.vault.is_available() && self.vault.spec_get(account_name@)
                    == Some(blob@),
                Err(e) => if !self.vault.is_available() {
                    e == StorageError::StorageIo
                } else {
                    e == StorageError::NotFound && self.vault.spec_get(account_name@) is None
                },
            },
    {
        self.vault.get(account_name)
    }

    /// Delete the credential stored under `account_name`; deleting a
    /// missing entry succeeds.
    pub fn delete_credentials(&mut self, account_name: &String) -> (r: Result<(), StorageError>)
        requires
            old(self).wf(),
        ensures
            final(self).wf(),
            final(self).accounts == old(self).accounts,
            final(self).histories == old(self).histories,
            final(self).history_available == old(self).history_available,
            final(self).vault.is_available() == old(self).vault.is_available(),
            r is Ok <==> old(self).vault.is_available(),
            r is Err ==> r == Err::<(), StorageError>(StorageError::StorageIo) && *final(self)
                == *old(self),
            r is Ok ==> final(self).vault.spec_get(account_name@) is None && forall|n: Seq<char>|
                n != account_name@ ==> final(self).vault.spec_get(n) == old(self).vault.spec_get(
                    n,
                ),
    {
        self.vault.delete(account_name)
    }

    /// Remove the account named `name`: validate it exists, delete
    /// its credential, clear its history best-effort — an unwritable
    /// history document does not block the removal — and drop the
    /// index entry last, so a failure partway leaves the account
    /// discoverable for a retry.
    pub fn remove_account(&mut self, name: &String) -> (r: Result<(), StorageError>)
        requires
            old(self).wf(),
        ensures
            final(self).wf(),
            final(self).history_available == old(self).history_available,
            match r {
                Ok(()) => old(self).remove_err(name@) is None,
                Err(e) => old(self).remove_err(name@) == Some(e),
            },
            r is Err ==> *final(self) == *old(self),
            r is Ok ==> {
                &&& final(self).accounts@ == drop_account(old(self).accounts@, name@)
                &&& !final(self).has_account(name@)
                &&& final(self).vault.spec_get(name@) is None
                &&& final(self).vault.is_available()
                &&& forall|n: Seq<char>|
                    n != name@ ==> final(self).vault.spec_get(n) == old(self).vault.spec_get(n)
                &&& old(self).history_available ==> final(self).histories@ == drop_history(
                    old(self).histories@,
                    name@,
                ) && !final(self).has_history(name@)
                &&& !old(self).history_available ==> final(self).histories == old(self).histories
            },
    {
        match self.account_position(name) {
            Some(_) => {},
            None => {
                return Err(StorageError::NotFound);
            },
        }
        match self.vault.delete(name) {
            Ok(()) => {},
            Err(e) => {
                return Err(e);
            },
        }
        if self.history_available {
            self.drop_history_entries(name);
        }
        self.drop_account_entries(name);
        proof {
            lemma_drop_account_unique(old(self).accounts@, name@);
            lemma_drop_account_absent(old(self).accounts@, name@);
            if self.has_account(name@) {
                let i = index_pos(self.accounts@, name@);
                assert(drop_account(old(self).accounts@, name@)[i].name@ == name@);
            }
            if old(self).history_available {
                lemma_drop_history_unique(old(self).histories@, name@);
                lemma_drop_history_absent(old(self).histories@, name@);
                lemma_drop_history_wf(old(self).histories@, name@);
                if self.has_history(name@) {
                    let i = hist_pos(self.histories@, name@);
                    assert(drop_history(old(self).histories@, name@)[i].account_name@ == name@);
                }
            }
        }
        Ok(())
    }

    /// Replace the account index entry for `name` with nothing,
    /// touching no other field.
    fn drop_account_entries(&mut self, name: &String)
        ensures
            final(self).accounts@ == drop_account(old(self).accounts@, name@),
            final(self).histories == old(self).histories,
            final(self).vault == old(self).vault,
            final(self).history_available == old(self).history_available,
    {
        let ghost pre = self.accounts@;
        let mut kept: Vec<Account> = Vec::new();
        assert(kept@ == drop_account(pre.subrange(0, 0), name@));
        let mut i: usize = 0;
        let n = self.accounts.len();
        while i < n
            invariant
                i <= n,
                n == pre.len(),
                self.accounts@ == pre,
                kept@ == drop_account(pre.subrange(0, i as int), name@),
            decreases n - i,
        {
            if !(self.accounts[i].name == *name) {
                kept.push(self.accounts[i].clone());
            }
            proof {
                let sub1 = pre.subrange(0, i + 1 as int);
                assert(sub1.drop_last() =~= pre.subrange(0, i as int));
                assert(sub1.last() == pre[i as int]);
                assert(kept@ == drop_account(sub1, name@));
            }
            i = i + 1;
        }
        assert(pre.subrange(0, n as int) =~= pre);
        self.accounts = kept;
    }

    /// Drop the history record keyed `name`, touching no other field.
    /// With unique keys this is removing the one matching record.
    fn drop_history_entries(&mut self, name: &String)
        requires
            forall|i: int, j: int|
                0 <= i < j < old(self).histories@.len() ==> old(self).histories@[i].account_name@
                    != old(self).histories@[j].account_name@,
        ensures
            final(self).histories@ == drop_history(old(self).histories@, name@),
            final(self).accounts == old(self).accounts,
            final(self).vault == old(self).vault,
            final(self).history_available == old(self).history_available,
    {
        match self.history_position(name) {
            Some(i) => {
                proof {
                    lemma_drop_history_is_remove(self.histories@, name@, i as int);
                }
                self.histories.remove(i);
            },
            None => {
                proof {
                    lemma_drop_history_noop(self.histories@, name@);
                }
            },
        }
    }

    /// A copy of the snapshots of the history record at position `i`.
    fn clone_snapshots(&self, i: usize) -> (r: Vec<QuotaSnapshot>)
        requires
            i < self.histories@.len(),
        ensures
            r@ == self.histories@[i as int].snapshots@,
    {
        let n = self.histories[i].snapshots.len();
        let mut r: Vec<QuotaSnapshot> = Vec::new();
        let mut j: usize = 0;
        while j < n
            invariant
                j <= n,
                i < self.histories@.len(),
                n == self.histories@[i as int].snapshots@.len(),
                r@ =~= self.histories@[i as int].snapshots@.subrange(0, j as int),
            decreases n - j,
        {
            r.push(self.histories[i].snapshots[j]);
            assert(r@ =~= self.histories@[i as int].snapshots@.subrange(0, j + 1 as int));
            j = j + 1;
        }
        assert(r@ =~= self.histories@[i as int].snapshots@);
        r
    }

    /// The stored snapshots of `account_name`, oldest first; empty
    /// when the account has no history yet.
    pub fn get_quota_history(&self, account_name: &String) -> (r: Vec<QuotaSnapshot>)
        requires
            self.wf(),
        ensures
            r@ == self.spec_history(account_name@),
    {
        match self.history_position(account_name) {
            Some(i) => {
                let r = self.clone_snapshots(i);
                proof {
                    lemma_hist_pos_unique(self.histories@, i as int, account_name@);
                }
                r
            },
            None => Vec::new(),
        }
    }

    /// Record a fresh usage observation for `account_name`: append it
    /// unless it repeats the last stored usage, evicting the oldest
    /// snapshot beyond the cap. Returns whether the log changed; a
    /// changed log that cannot be rewritten surfaces `StorageIo` and
    /// changes nothing.
    pub fn add_quota_snapshot(&mut self, account_name: &String, quota: &QuotaInfo) -> (r: Result<
        bool,
        StorageError,
    >)
        requires
            old(self).wf(),
        ensures
            final(self).wf(),
            final(self).accounts == old(self).accounts,
            final(self).vault == old(self).vault,
            final(self).history_available == old(self).history_available,
            match r {
                Ok(changed) => changed == old(self).append_would_change(
                    account_name@,
                    snapshot_of(*quota),
                ) && (changed ==> old(self).history_available),
                Err(e) => e == StorageError::StorageIo && !old(self).history_available && old(self).append_would_change(account_name@, snapshot_of(*quota)),
            },
            r == Ok::<bool, StorageError>(true) ==> {
                &&& final(self).spec_history(account_name@) == capped_push(
                    old(self).spec_history(account_name@),
                    snapshot_of(*quota),
                )
                &&& final(self).has_history(account_name@)
                &&& forall|n: Seq<char>|
                    n != account_name@ ==> final(self).spec_history(n) == old(self).spec_history(
                        n,
                    ) && final(self).has_history(n) == old(self).has_history(n)
            },
            r != Ok::<bool, StorageError>(true) ==> final(self).histories == old(self).histories,
    {
        let snap = QuotaSnapshot::from_quota_info(quota);
        match self.history_position(account_name) {
            Some(i) => {
                proof {
                    lemma_hist_pos_unique(self.histories@, i as int, account_name@);
                }
                let last_pos = self.histories[i].snapshots.len();
                let changed = if last_pos == 0 {
                    true
                } else {
                    snap.has_changed_from(&self.histories[i].snapshots[last_pos - 1])
                };
                if !changed {
                    return Ok(false);
                }
                if !self.history_available {
                    return Err(StorageError::StorageIo);
                }
                let ghost pre = *self;
                let mut rec = self.histories.remove(i);
                rec.append_if_changed(snap);
                self.histories.insert(i, rec);
                proof {
                    assert(self.histories@ =~= pre.histories@.update(
                        i as int,
                        self.histories@[i as int],
                    ));
                    lemma_hist_update_others(
                        pre.histories@,
                        self.histories@,
                        i as int,
                        account_name@,
                        account_name@,
                    );
                    lemma_hist_pos_unique(self.histories@, i as int, account_name@);
                }
                Ok(true)
            },
            None => {
                if !self.history_available {
                    return Err(StorageError::StorageIo);
                }
                let ghost pre = *self;
                let mut snapshots: Vec<QuotaSnapshot> = Vec::new();
                snapshots.push(snap);
                let rec = QuotaHistory { account_name: account_name.clone(), snapshots };
                self.histories.push(rec);
                proof {
                    lemma_hist_push_others(pre.histories@, self.histories@, account_name@);
                    lemma_hist_pos_unique(
                        self.histories@,
                        self.histories@.len() - 1,
                        account_name@,
                    );
                    assert(self.spec_history(account_name@) =~= capped_push(
                        pre.spec_history(account_name@),
                        snap,
                    ));
                }
                Ok(true)
            },
        }
    }

    /// Rename `old_name` to `new_name`: fail on a collision, copy the
    /// credential to the new key, drop the old one, migrate the
    /// history key, then rewrite the index entry's name and
    /// `last_updated`. Any failure leaves the index and the history
    /// log untouched — the rename is all-or-nothing in their eyes,
    /// though a failure at the history step leaves the credential
    /// already migrated, an orphan the next attempt overwrites.
    pub fn rename_account(&mut self, old_name: &String, new_name: &String, now: i64) -> (r: Result<
        (),
        StorageError,
    >)
        requires
            old(self).wf(),
        ensures
            final(self).wf(),
            final(self).history_available == old(self).history_available,
            match r {
                Ok(()) => old(self).rename_err(old_name@, new_name@) is None,
                Err(e) => old(self).rename_err(old_name@, new_name@) == Some(e),
            },
            r is Err ==> final(self).accounts == old(self).accounts && final(self).histories
                == old(self).histories,
            r is Err && !old(self).rename_fails_at_history(old_name@, new_name@) ==> final(self).vault == old(self).vault,
            r is Err && old(self).rename_fails_at_history(old_name@, new_name@) ==> {
                &&& final(self).vault.spec_get(new_name@) == old(self).vault.spec_get(old_name@)
                &&& final(self).vault.spec_get(old_name@) is None
                &&& forall|n: Seq<char>|
                    n != old_name@ && n != new_name@ ==> final(self).vault.spec_get(n) == old(self).vault.spec_get(n)
            },
            r is Ok && old_name@ == new_name@ ==> *final(self) == *old(self),
            r is Ok && old_name@ != new_name@ ==> {
                &&& final(self).accounts@ == old(self).accounts@.update(
                    old(self).account_index(old_name@),
                    (Account {
                        name: *new_name,
                        provider: old(self).account_at(old_name@).provider,
                        email: old(self).account_at(old_name@).email,
                        created_at: old(self).account_at(old_name@).created_at,
                        last_updated: now,
                    }),
                )
                &&& final(self).has_account(new_name@)
                &&& !final(self).has_account(old_name@)
                &&& final(self).vault.spec_get(new_name@) == old(self).vault.spec_get(old_name@)
                &&& final(self).vault.spec_get(old_name@) is None
                &&& forall|n: Seq<char>|
                    n != old_name@ && n != new_name@ ==> final(self).vault.spec_get(n) == old(self).vault.spec_get(n)
                &&& old(self).has_history(old_name@) ==> final(self).spec_history(new_name@)
                    == old(self).spec_history(old_name@) && final(self).has_history(new_name@)
                    && !final(self).has_history(old_name@)
                &&& !old(self).has_history(old_name@) ==> final(self).histories == old(
                    self,
                ).histories
                &&& forall|n: Seq<char>|
                    n != old_name@ && n != new_name@ ==> final(self).spec_history(n) == old(self).spec_history(n) && final(self).has_history(n) == old(self).has_history(n)
            },
    {
        if *old_name == *new_name {
            return Ok(());
        }
        match self.account_position(new_name) {
            Some(_) => {
                return Err(StorageError::AlreadyExists);
            },
            None => {},
        }
        let pos = match self.account_position(old_name) {
            Some(i) => i,
            None => {
                return Err(StorageError::NotFound);
            },
        };
        proof {
            lemma_index_pos_unique(self.accounts@, pos as int, old_name@);
        }
        let credentials = match self.vault.get(old_name) {
            Ok(c) => c,
            Err(e) => {
                return Err(e);
            },
        };
        match self.vault.store(new_name, credentials) {
            Ok(()) => {},
            Err(e) => {
                return Err(e);
            },
        }
        match self.vault.delete(old_name) {
            Ok(()) => {},
            Err(e) => {
                return Err(e);
            },
        }
        let ghost mid = *self;
        match self.history_position(old_name) {
            Some(_) => {
                if !self.history_available {
                    return Err(StorageError::StorageIo);
                }
                proof {
                    lemma_hist_pos_unique(
                        mid.histories@,
                        hist_pos(mid.histories@, old_name@),
                        old_name@,
                    );
                }
                // An account named `new_name` cannot exist, but an
                // orphaned history record keyed so still can; the
                // migrated record replaces it.
                self.drop_history_entries(new_name);
                proof {
                    lemma_drop_history_unique(mid.histories@, new_name@);
                    lemma_drop_history_absent(mid.histories@, new_name@);
                    lemma_drop_history_wf(mid.histories@, new_name@);
                    lemma_drop_history_others(mid.histories@, new_name@);
                }
                let ghost mid2 = *self;
                match self.history_position(old_name) {
                    Some(h) => {
                        proof {
                            lemma_hist_pos_unique(mid2.histories@, h as int, old_name@);
                            assert forall|j: int|
                                0 <= j < mid2.histories@.len() implies mid2.histories@[j].account_name@
                                != new_name@ by {
                                assert(drop_history(mid.histories@, new_name@)[j].account_name@
                                    != new_name@);
                            }
                        }
                        let mut rec = self.histories.remove(h);
                        rec.account_name = new_name.clone();
                        self.histories.insert(h, rec);
                        proof {
                            assert(self.histories@ =~= mid2.histories@.update(
                                h as int,
                                self.histories@[h as int],
                            ));
                            lemma_hist_update_others(
                                mid2.histories@,
                                self.histories@,
                                h as int,
                                old_name@,
                                new_name@,
                            );
                            lemma_hist_pos_unique(self.histories@, h as int, new_name@);
                        }
                    },
                    None => {
                        proof {
                            // Dropping the new key keeps the old key's
                            // record, so this branch cannot run.
                            assert(hist_has(mid2.histories@, old_name@));
                            assert(false);
                        }
                    },
                }
            },
            None => {},
        }
        let ghost pre_index = *self;
        let mut acc = self.accounts.remove(pos);
        acc.name = new_name.clone();
        acc.last_updated = now;
        self.accounts.insert(pos, acc);
        proof {
            assert(self.accounts@ =~= pre_index.accounts@.update(
                pos as int,
                self.accounts@[pos as int],
            ));
            lemma_index_update_others(
                pre_index.accounts@,
                self.accounts@,
                pos as int,
                old_name@,
                new_name@,
            );
            lemma_index_pos_unique(self.accounts@, pos as int, new_name@);
        }
        Ok(())
    }

    /// Replace the whole index, preserving the caller's order. The
    /// new list is validated: duplicate names are rejected before
    /// anything changes.
    pub fn save_accounts_order(&mut self, accounts: Vec<Account>) -> (r: Result<(), StorageError>)
        requires
            old(self).wf(),
        ensures
            final(self).wf(),
            final(self).histories == old(self).histories,
            final(self).vault == old(self).vault,
            final(self).history_available == old(self).history_available,
            r is Ok <==> (forall|i: int, j: int|
                0 <= i < j < accounts@.len() ==> accounts@[i].name@ != accounts@[j].name@),
            r is Ok ==> final(self).accounts@ == accounts@,
            r is Err ==> r == Err::<(), StorageError>(StorageError::Validation) && final(self).accounts == old(self).accounts,
    {
        if !names_unique(&accounts) {
            return Err(StorageError::Validation);
        }
        self.accounts = accounts;
        Ok(())
    }
}

/// Whether all account names in `v` are distinct.
pub fn names_unique(v: &Vec<Account>) -> (r: bool)
    ensures
        r == (forall|i: int, j: int| 0 <= i < j < v@.len() ==> v@[i].name@ != v@[j].name@),
{
    let n = v.len();
    let mut i: usize = 0;
    while i < n
        invariant
            i <= n,
            n == v@.len(),
            forall|a: int, b: int| 0 <= a < b < i ==> v@[a].name@ != v@[b].name@,
        decreases n - i,
    {
        let mut j: usize = 0;
        while j < i
            invariant
                j <= i < n,
                n == v@.len(),
                forall|b: int| 0 <= b < j ==> v@[b].name@ != v@[i as int].name@,
            decreases i - j,
        {
            if v[j].name == v[i].name {
                return false;
            }
            j = j + 1;
        }
        i = i + 1;
    }
    true
}

proof fn lemma_index_pos_unique(s: Seq<Account>, i: int, name: Seq<char>)
    requires
        forall|a: int, b: int| 0 <= a < b < s.len() ==> s[a].name@ != s[b].name@,
        0 <= i < s.len(),
        s[i].name@ == name,
    ensures
        index_has(s, name),
        index_pos(s, name) == i,
{
    let j = index_pos(s, name);
    assert(0 <= j < s.len() && s[j].name@ == name);
    assert(j == i);
}

proof fn lemma_hist_pos_unique(s: Seq<QuotaHistory>, i: int, name: Seq<char>)
    requires
        forall|a: int, b: int| 0 <= a < b < s.len() ==> s[a].account_name@ != s[b].account_name@,
        0 <= i < s.len(),
        s[i].account_name@ == name,
    ensures
        hist_has(s, name),
        hist_pos(s, name) == i,
        hist_at(s, name) == s[i].snapshots@,
{
    let j = hist_pos(s, name);
    assert(0 <= j < s.len() && s[j].account_name@ == name);
    assert(j == i);
}

/// Replacing the record at `i` (whose key moves from `old_key` to
/// `new_key`, absent elsewhere) keeps every other key's record.
proof fn lemma_hist_update_others(
    pre: Seq<QuotaHistory>,
    post: Seq<QuotaHistory>,
    i: int,
    old_key: Seq<char>,
    new_key: Seq<char>,
)
    requires
        forall|a: int, b: int|
            0 <= a < b < pre.len() ==> pre[a].account_name@ != pre[b].account_name@,
        0 <= i < pre.len(),
        pre[i].account_name@ == old_key,
        post.len() == pre.len(),
        post[i].account_name@ == new_key,
        forall|j: int| 0 <= j < pre.len() && j != i ==> post[j] == pre[j],
        forall|j: int| 0 <= j < pre.len() && j != i ==> pre[j].account_name@ != new_key,
    ensures
        forall|a: int, b: int|
            0 <= a < b < post.len() ==> post[a].account_name@ != post[b].account_name@,
        forall|n: Seq<char>|
            n != old_key && n != new_key ==> hist_at(post, n) == hist_at(pre, n) && hist_has(
                post,
                n,
            ) == hist_has(pre, n),
        !hist_has(post, old_key) || old_key == new_key,
{
    assert forall|a: int, b: int|
        0 <= a < b < post.len() implies post[a].account_name@ != post[b].account_name@ by {
        if a != i && b != i {
            assert(pre[a].account_name@ != pre[b].account_name@);
        }
    }
    assert forall|n: Seq<char>|
        n != old_key && n != new_key implies hist_at(post, n) == hist_at(pre, n) && hist_has(
        post,
        n,
    ) == hist_has(pre, n) by {
        if hist_has(pre, n) {
            let j = hist_pos(pre, n);
            assert(0 <= j < pre.len() && pre[j].account_name@ == n);
            assert(j != i);
            assert(post[j].account_name@ == n);
            lemma_hist_pos_unique_general(pre, j, n);
            lemma_hist_pos_unique_general(post, j, n);
        } else {
            if hist_has(post, n) {
                let j = hist_pos(post, n);
                assert(0 <= j < post.len() && post[j].account_name@ == n);
                assert(j != i);
                assert(pre[j].account_name@ == n);
            }
        }
    }
    if old_key != new_key {
        if hist_has(post, old_key) {
            let j = hist_pos(post, old_key);
            assert(0 <= j < post.len() && post[j].account_name@ == old_key);
            assert(j != i);
            assert(pre[j].account_name@ == old_key);
            assert(pre[i].account_name@ != pre[j].account_name@);
        }
    }
}

/// Like `lemma_hist_pos_unique`, but proving uniqueness on the fly
/// from whatever sequence it is given.
proof fn lemma_hist_pos_unique_general(s: Seq<QuotaHistory>, i: int, name: Seq<char>)
    requires
        0 <= i < s.len(),
        s[i].account_name@ == name,
        forall|j: int| 0 <= j < s.len() && j != i ==> s[j].account_name@ != name,
    ensures
        hist_has(s, name),
        hist_pos(s, name) == i,
        hist_at(s, name) == s[i].snapshots@,
{
    let j = hist_pos(s, name);
    assert(0 <= j < s.len() && s[j].account_name@ == name);
    assert(j == i);
}

/// Appending a record with a fresh key keeps every other key's
/// record and the uniqueness of keys.
proof fn lemma_hist_push_others(
    pre: Seq<QuotaHistory>,
    post: Seq<QuotaHistory>,
    new_key: Seq<char>,
)
    requires
        forall|a: int, b: int|
            0 <= a < b < pre.len() ==> pre[a].account_name@ != pre[b].account_name@,
        !hist_has(pre, new_key),
        post.len() == pre.len() + 1,
        post[post.len() - 1].account_name@ == new_key,
        forall|j: int| 0 <= j < pre.len() ==> post[j] == pre[j],
    ensures
        forall|a: int, b: int|
            0 <= a < b < post.len() ==> post[a].account_name@ != post[b].account_name@,
        hist_has(post, new_key),
        hist_at(post, new_key) == post[post.len() - 1].snapshots@,
        forall|n: Seq<char>|
            n != new_key ==> hist_at(post, n) == hist_at(pre, n) && hist_has(post, n) == hist_has(
                pre,
                n,
            ),
{
    let last = post.len() - 1;
    assert forall|a: int, b: int|
        0 <= a < b < post.len() implies post[a].account_name@ != post[b].account_name@ by {
        if b == last {
            assert(post[a] == pre[a]);
            if pre[a].account_name@ == new_key {
                assert(hist_has(pre, new_key));
            }
        } else {
            assert(post[a] == pre[a] && post[b] == pre[b]);
        }
    }
    lemma_hist_pos_unique(post, last, new_key);
    assert forall|n: Seq<char>|
        n != new_key implies hist_at(post, n) == hist_at(pre, n) && hist_has(post, n) == hist_has(
        pre,
        n,
    ) by {
        if hist_has(pre, n) {
            let j = hist_pos(pre, n);
            assert(0 <= j < pre.len() && pre[j].account_name@ == n);
            lemma_hist_pos_unique(pre, j, n);
            assert(post[j].account_name@ == n);
            lemma_hist_pos_unique(post, j, n);
        } else {
            if hist_has(post, n) {
                let j = hist_pos(post, n);
                assert(0 <= j < post.len() && post[j].account_name@ == n);
                assert(j != last);
                assert(pre[j].account_name@ == n);
            }
        }
    }
}

/// Replacing the entry at `i` (name moving `old_key` to `new_key`,
/// absent elsewhere) keeps names unique.
proof fn lemma_index_update_others(
    pre: Seq<Account>,
    post: Seq<Account>,
    i: int,
    old_key: Seq<char>,
    new_key: Seq<char>,
)
    requires
        forall|a: int, b: int| 0 <= a < b < pre.len() ==> pre[a].name@ != pre[b].name@,
        0 <= i < pre.len(),
        pre[i].name@ == old_key,
        post.len() == pre.len(),
        post[i].name@ == new_key,
        forall|j: int| 0 <= j < pre.len() && j != i ==> post[j] == pre[j],
        forall|j: int| 0 <= j < pre.len() && j != i ==> pre[j].name@ != new_key,
        old_key != new_key,
    ensures
        forall|a: int, b: int| 0 <= a < b < post.len() ==> post[a].name@ != post[b].name@,
        !index_has(post, old_key),
{
    assert forall|a: int, b: int|
        0 <= a < b < post.len() implies post[a].name@ != post[b].name@ by {
        if a != i && b != i {
            assert(pre[a].name@ != pre[b].name@);
        }
    }
    if index_has(post, old_key) {
        let j = index_pos(post, old_key);
        assert(0 <= j < post.len() && post[j].name@ == old_key);
        assert(j != i);
        assert(pre[j].name@ == old_key);
        assert(pre[i].name@ != pre[j].name@);
    }
}

/// Dropping a name keeps the remaining entries and their order: every
/// survivor stands somewhere in the input.
proof fn lemma_drop_account_elem_of(s: Seq<Account>, name: Seq<char>, i: int)
    requires
        0 <= i < drop_account(s, name).len(),
    ensures
        exists|j: int| 0 <= j < s.len() && s[j] == drop_account(s, name)[i],
    decreases s.len(),
{
    if s.len() > 0 {
        let rest = drop_account(s.drop_last(), name);
        if s.last().name@ != name && i == drop_account(s, name).len() - 1 {
            assert(s[s.len() - 1] == drop_account(s, name)[i]);
        } else {
            lemma_drop_account_elem_of(s.drop_last(), name, i);
            let j = choose|j: int| 0 <= j < s.drop_last().len() && s.drop_last()[j] == rest[i];
            assert(s[j] == drop_account(s, name)[i]);
        }
    }
}

/// Dropping a name preserves uniqueness of the remaining names.
proof fn lemma_drop_account_unique(s: Seq<Account>, name: Seq<char>)
    requires
        forall|i: int, j: int| 0 <= i < j < s.len() ==> s[i].name@ != s[j].name@,
    ensures
        forall|i: int, j: int|
            0 <= i < j < drop_account(s, name).len() ==> drop_account(s, name)[i].name@
                != drop_account(s, name)[j].name@,
    decreases s.len(),
{
    if s.len() > 0 {
        lemma_drop_account_unique(s.drop_last(), name);
        let rest = drop_account(s.drop_last(), name);
        let out = drop_account(s, name);
        assert forall|i: int, j: int|
            0 <= i < j < out.len() implies out[i].name@ != out[j].name@ by {
            if s.last().name@ != name && j == out.len() - 1 {
                assert(out[j] == s.last());
                assert(out[i] == rest[i]);
                lemma_drop_account_elem_of(s.drop_last(), name, i);
                let k = choose|k: int|
                    0 <= k < s.drop_last().len() && s.drop_last()[k] == rest[i];
                assert(s[k].name@ != s[s.len() - 1].name@);
            }
        }
    }
}

/// No entry named `name` survives dropping it.
proof fn lemma_drop_account_absent(s: Seq<Account>, name: Seq<char>)
    ensures
        forall|i: int|
            0 <= i < drop_account(s, name).len() ==> (#[trigger] drop_account(s, name)[i]).name@
                != name,
    decreases s.len(),
{
    if s.len() > 0 {
        lemma_drop_account_absent(s.drop_last(), name);
    }
}

/// Every surviving history record stands somewhere in the input.
proof fn lemma_drop_history_elem_of(s: Seq<QuotaHistory>, name: Seq<char>, i: int)
    requires
        0 <= i < drop_history(s, name).len(),
    ensures
        exists|j: int| 0 <= j < s.len() && s[j] == drop_history(s, name)[i],
    decreases s.len(),
{
    if s.len() > 0 {
        let rest = drop_history(s.drop_last(), name);
        if s.last().account_name@ != name && i == drop_history(s, name).len() - 1 {
            assert(s[s.len() - 1] == drop_history(s, name)[i]);
        } else {
            lemma_drop_history_elem_of(s.drop_last(), name, i);
            let j = choose|j: int| 0 <= j < s.drop_last().len() && s.drop_last()[j] == rest[i];
            assert(s[j] == drop_history(s, name)[i]);
        }
    }
}

/// Dropping a history key preserves uniqueness of the rest.
proof fn lemma_drop_history_unique(s: Seq<QuotaHistory>, name: Seq<char>)
    requires
        forall|i: int, j: int|
            0 <= i < j < s.len() ==> s[i].account_name@ != s[j].account_name@,
    ensures
        forall|i: int, j: int|
            0 <= i < j < drop_history(s, name).len() ==> drop_history(s, name)[i].account_name@
                != drop_history(s, name)[j].account_name@,
    decreases s.len(),
{
    if s.len() > 0 {
        lemma_drop_history_unique(s.drop_last(), name);
        let rest = drop_history(s.drop_last(), name);
        let out = drop_history(s, name);
        assert forall|i: int, j: int|
            0 <= i < j < out.len() implies out[i].account_name@ != out[j].account_name@ by {
            if s.last().account_name@ != name && j == out.len() - 1 {
                assert(out[j] == s.last());
                assert(out[i] == rest[i]);
                lemma_drop_history_elem_of(s.drop_last(), name, i);
                let k = choose|k: int|
                    0 <= k < s.drop_last().len() && s.drop_last()[k] == rest[i];
                assert(s[k].account_name@ != s[s.len() - 1].account_name@);
            }
        }
    }
}

/// No record keyed `name` survives dropping it.
proof fn lemma_drop_history_absent(s: Seq<QuotaHistory>, name: Seq<char>)
    ensures
        forall|i: int|
            0 <= i < drop_history(s, name).len() ==> (#[trigger] drop_history(
                s,
                name,
            )[i]).account_name@ != name,
    decreases s.len(),
{
    if s.len() > 0 {
        lemma_drop_history_absent(s.drop_last(), name);
        let rest = drop_history(s.drop_last(), name);
        let out = drop_history(s, name);
        assert forall|i: int|
            0 <= i < out.len() implies (#[trigger] out[i]).account_name@ != name by {
            if s.last().account_name@ != name && i == out.len() - 1 {
            } else {
                assert(out[i] == rest[i]);
            }
        }
    }
}

/// Every surviving record keeps its well-formedness.
proof fn lemma_drop_history_wf(s: Seq<QuotaHistory>, name: Seq<char>)
    requires
        forall|i: int| 0 <= i < s.len() ==> (#[trigger] s[i]).wf(),
    ensures
        forall|i: int|
            0 <= i < drop_history(s, name).len() ==> (#[trigger] drop_history(s, name)[i]).wf(),
    decreases s.len(),
{
    if s.len() > 0 {
        lemma_drop_history_wf(s.drop_last(), name);
        let rest = drop_history(s.drop_last(), name);
        let out = drop_history(s, name);
        assert forall|i: int| 0 <= i < out.len() implies (#[trigger] out[i]).wf() by {
            if s.last().account_name@ != name && i == out.len() - 1 {
                assert(out[i] == s.last());
                assert(s[s.len() - 1].wf());
            } else {
                assert(out[i] == rest[i]);
            }
        }
    }
}

/// Dropping a key that no record carries changes nothing.
proof fn lemma_drop_history_noop(s: Seq<QuotaHistory>, name: Seq<char>)
    requires
        !hist_has(s, name),
    ensures
        drop_history(s, name) == s,
    decreases s.len(),
{
    if s.len() > 0 {
        assert(!hist_has(s.drop_last(), name)) by {
            if hist_has(s.drop_last(), name) {
                let j = hist_pos(s.drop_last(), name);
                assert(s[j].account_name@ == name);
            }
        }
        lemma_drop_history_noop(s.drop_last(), name);
        assert(s[s.len() - 1].account_name@ != name);
        assert(drop_history(s, name) =~= s);
    }
}

/// With unique keys, dropping a key removes exactly the record at its
/// position.
proof fn lemma_drop_history_is_remove(s: Seq<QuotaHistory>, name: Seq<char>, i: int)
    requires
        forall|a: int, b: int|
            0 <= a < b < s.len() ==> s[a].account_name@ != s[b].account_name@,
        0 <= i < s.len(),
        s[i].account_name@ == name,
    ensures
        drop_history(s, name) == s.remove(i),
    decreases s.len(),
{
    if i == s.len() - 1 {
        assert(!hist_has(s.drop_last(), name)) by {
            if hist_has(s.drop_last(), name) {
                let j = hist_pos(s.drop_last(), name);
                assert(s[j].account_name@ == s[i].account_name@);
            }
        }
        lemma_drop_history_noop(s.drop_last(), name);
        assert(s.remove(i) =~= s.drop_last());
    } else {
        lemma_drop_history_is_remove(s.drop_last(), name, i);
        assert(s.last().account_name@ != name);
        assert(drop_history(s, name) == s.drop_last().remove(i).push(s.last()));
        assert(s.drop_last().remove(i).push(s.last()) =~= s.remove(i));
    }
}

/// With unique keys, dropping one key keeps every other key's record.
proof fn lemma_drop_history_others(s: Seq<QuotaHistory>, name: Seq<char>)
    requires
        forall|a: int, b: int|
            0 <= a < b < s.len() ==> s[a].account_name@ != s[b].account_name@,
    ensures
        !hist_has(drop_history(s, name), name),
        forall|n: Seq<char>|
            n != name ==> hist_has(drop_history(s, name), n) == hist_has(s, n) && hist_at(
                drop_history(s, name),
                n,
            ) == hist_at(s, n),
{
    let out = drop_history(s, name);
    lemma_drop_history_absent(s, name);
    assert(!hist_has(out, name)) by {
        if hist_has(out, name) {
            let j = hist_pos(out, name);
            assert(out[j].account_name@ == name);
        }
    }
    if hist_has(s, name) {
        let i = hist_pos(s, name);
        assert(0 <= i < s.len() && s[i].account_name@ == name);
        lemma_drop_history_is_remove(s, name, i);
        assert forall|n: Seq<char>|
            n != name implies hist_has(out, n) == hist_has(s, n) && hist_at(out, n) == hist_at(
            s,
            n,
        ) by {
            if hist_has(s, n) {
                let j = hist_pos(s, n);
                lemma_hist_pos_unique(s, j, n);
                assert(j != i);
                let j1 = if j < i {
                    j
                } else {
                    j - 1
                };
                assert(out[j1] == s[j]);
                assert forall|k: int| 0 <= k < out.len() && k != j1 implies out[k].account_name@
                    != n by {
                    let k0 = if k < i {
                        k
                    } else {
                        k + 1
                    };
                    assert(out[k] == s[k0]);
                    if s[k0].account_name@ == n {
                        assert(s[k0].account_name@ != s[j].account_name@);
                    }
                }
                lemma_hist_pos_unique_general(out, j1, n);
            } else {
                if hist_has(out, n) {
                    let j = hist_pos(out, n);
                    let j0 = if j < i {
                        j
                    } else {
                        j + 1
                    };
                    assert(out[j] == s[j0]);
                }
            }
        }
    } else {
        lemma_drop_history_noop(s, name);
    }
}

/// A sequence with unique names whose last element is named `name`
/// finds that element by name.
proof fn lemma_last_named(s: Seq<Account>, name: Seq<char>)
    requires
        s.len() > 0,
        s[s.len() - 1].name@ == name,
        forall|i: int, j: int| 0 <= i < j < s.len() ==> s[i].name@ != s[j].name@,
    ensures
        exists|i: int| 0 <= i < s.len() && s[i].name@ == name,
        (choose|i: int| 0 <= i < s.len() && s[i].name@ == name) == s.len() - 1,
{
    assert(s[s.len() - 1].name@ == name);
    let i = choose|i: int| 0 <= i < s.len() && s[i].name@ == name;
    assert(i == s.len() - 1);
}

/// Dropping a name twice is dropping it once.
proof fn lemma_drop_account_idempotent(s: Seq<Account>, name: Seq<char>)
    ensures
        drop_account(drop_account(s, name), name) == drop_account(s, name),
    decreases s.len(),
{
    if s.len() == 0 {
    } else {
        lemma_drop_account_idempotent(s.drop_last(), name);
        let rest = drop_account(s.drop_last(), name);
        if s.last().name@ == name {
        } else {
            assert(rest.push(s.last()).drop_last() =~= rest);
            assert(drop_account(rest.push(s.last()), name) == drop_account(rest, name).push(
                s.last(),
            ));
        }
    }
}

/// Dropping a name removes every entry carrying it.
proof fn lemma_drop_account_count(s: Seq<Account>, name: Seq<char>)
    ensures
        count_named(drop_account(s, name), name) == 0,
    decreases s.len(),
{
    if s.len() > 0 {
        lemma_drop_account_count(s.drop_last(), name);
        let rest = drop_account(s.drop_last(), name);
        if s.last().name@ != name {
            assert(rest.push(s.last()).drop_last() =~= rest);
            assert(count_named(rest.push(s.last()), name) == count_named(rest, name));
        }
    }
}

/// Saving the same record twice is idempotent — the second upsert
/// leaves the index exactly as the first left it — and the index then
/// holds exactly one entry carrying the record's name.
pub proof fn lemma_save_account_idempotent(s: Seq<Account>, account: Account)
    ensures
        upsert_spec(upsert_spec(s, account), account) == upsert_spec(s, account),
        count_named(upsert_spec(s, account), account.name@) == 1,
{
    let once = upsert_spec(s, account);
    let kept = drop_account(s, account.name@);
    assert(once.drop_last() =~= kept);
    assert(drop_account(once, account.name@) == drop_account(kept, account.name@));
    lemma_drop_account_idempotent(s, account.name@);
    assert(upsert_spec(once, account) =~= once);
    lemma_drop_account_count(s, account.name@);
    assert(count_named(once, account.name@) == count_named(kept, account.name@) + 1);
}

} // verus!
