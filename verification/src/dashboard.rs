use vstd::prelude::*;
use crate::account::Account;
use crate::errors::{FetchError, StorageError};
use crate::providers::{ProviderKind, prepare_quota_fetch};
use crate::quota::QuotaInfo;
use crate::storage::{SecureStorage, upsert_spec, drop_account};
use crate::text::{chars_of_str, dec_seq, is_control, trim_chars, trimmed, u64_to_dec,
    string_from_chars};

verus! {

broadcast use vstd::string::group_string_axioms;

/// A keyboard event, as the dashboard distinguishes them. The
/// embedding maps its terminal backend's events onto these.
#[derive(Debug, Clone, Copy, PartialEq, Eq, Structural)]
pub enum Key {
    Char(char),
    Enter,
    Esc,
    Backspace,
    Up,
    Down,
    Other,
}

/// The interaction mode the dashboard is in. Exactly one is active;
/// every path out of a non-`Viewing` mode returns to `Viewing`, with
/// the two-step account creation as the only nesting.
#[derive(Debug)]
pub enum Mode {
    Viewing,
    Renaming { buffer: Vec<char> },
    CreatingAccount { selected_provider: usize },
    CreatingAccountName { provider_id: String, provider_name: String, buffer: Vec<char> },
    Deleting,
}

/// What the event loop must do after a key was handled: nothing,
/// re-fetch every account's quota, or run a login flow for a new
/// account — the one operation the controller cannot do itself.
#[derive(Debug)]
pub enum Action {
    Idle,
    StartRefresh,
    StartLogin { provider_id: String, account_name: String },
}

/// The provider id at `i` in the fixed provider list.
pub open spec fn spec_provider_id(i: int) -> Seq<char> {
    if i == 0 {
        "copilot"@
    } else {
        "openrouter"@
    }
}

/// The display label at `i` in the fixed provider list.
pub open spec fn spec_provider_label(i: int) -> Seq<char> {
    if i == 0 {
        "GitHub Copilot"@
    } else {
        "OpenRouter"@
    }
}

/// How many providers the creation dialog offers.
pub fn provider_count() -> (n: usize)
    ensures
        n == 2,
{
    2
}

/// The id and display label of the provider at `i`.
pub fn provider_entry(i: usize) -> (r: (&'static str, &'static str))
    requires
        i < 2,
    ensures
        r.0@ == spec_provider_id(i as int),
        r.1@ == spec_provider_label(i as int),
{
    if i == 0 {
        ("copilot", "GitHub Copilot")
    } else {
        ("openrouter", "OpenRouter")
    }
}

/// What one frame shows besides the fixed panes: at most one modal
/// overlay, decided by the interaction mode alone. The renderer is a
/// pure function of this model, the account list, the quota cache
/// and the status line; pixel layout stays with the embedding.
#[derive(Debug)]
pub struct FrameModel {
    /// The rename dialog with the buffer's text, in `Renaming`.
    pub rename_dialog: Option<String>,
    /// The provider-choice dialog with the cursor, in `CreatingAccount`.
    pub provider_dialog: Option<usize>,
    /// The name-entry dialog with the provider label and the buffer's
    /// text, in `CreatingAccountName`.
    pub name_dialog: Option<(String, String)>,
    /// The delete confirmation, in `Deleting`.
    pub delete_dialog: bool,
}

impl FrameModel {
    /// How many overlays the frame shows: never more than one.
    pub open spec fn overlay_count(&self) -> int {
        (if self.rename_dialog is Some {
            1int
        } else {
            0int
        }) + (if self.provider_dialog is Some {
            1int
        } else {
            0int
        }) + (if self.name_dialog is Some {
            1int
        } else {
            0int
        }) + (if self.delete_dialog {
            1int
        } else {
            0int
        })
    }
}

/// The dashboard controller: the in-memory account list and quota
/// cache, the selection, the interaction mode, and the storage facade
/// it drives. `terminal_raw` models exclusive ownership of the
/// terminal (raw mode, alternate screen): the controller holds it for
/// its whole life and hands it over only around a login flow.
#[derive(Debug)]
pub struct App {
    pub storage: SecureStorage,
    pub accounts: Vec<Account>,
    pub quotas: Vec<QuotaInfo>,
    pub selected_index: usize,
    pub should_quit: bool,
    pub status_message: String,
    pub mode: Mode,
    pub terminal_raw: bool,
    pub refresh_error: bool,
}

impl App {
    /// The selection stays inside the list, a mode that acts on the
    /// selected account only exists while there is one, the provider
    /// cursor stays inside the provider list, and the storage facade
    /// is well formed.
    pub open spec fn wf(&self) -> bool {
        &&& self.storage.wf()
        &&& self.accounts@.len() > 0 ==> self.selected_index < self.accounts@.len()
        &&& self.accounts@.len() == 0 ==> self.selected_index == 0
        &&& (self.mode is Renaming || self.mode is Deleting) ==> self.accounts@.len() > 0
        &&& (self.mode matches Mode::CreatingAccount { selected_provider } ==> selected_provider
            < 2)
    }

    /// A fresh controller owning the terminal, in `Viewing` mode; the
    /// embedding triggers the initial refresh.
    pub fn new(storage: SecureStorage, accounts: Vec<Account>) -> (app: App)
        requires
            storage.wf(),
        ensures
            app.wf(),
            app.storage == storage,
            app.accounts == accounts,
            app.quotas@.len() == 0,
            app.selected_index == 0,
            !app.should_quit,
            app.status_message@ == "Loading..."@,
            app.mode is Viewing,
            app.terminal_raw,
            !app.refresh_error,
    {
        App {
            storage,
            accounts,
            quotas: Vec::new(),
            selected_index: 0,
            should_quit: false,
            status_message: String::from_str("Loading..."),
            mode: Mode::Viewing,
            terminal_raw: true,
            refresh_error: false,
        }
    }

    /// Move the selection down, wrapping at the end; nothing happens
    /// on an empty list.
    pub fn next(&mut self)
        requires
            old(self).wf(),
        ensures
            final(self).wf(),
            final(self).storage == old(self).storage,
            final(self).accounts == old(self).accounts,
            final(self).quotas == old(self).quotas,
            final(self).should_quit == old(self).should_quit,
            final(self).status_message == old(self).status_message,
            final(self).mode == old(self).mode,
            final(self).terminal_raw == old(self).terminal_raw,
            final(self).refresh_error == old(self).refresh_error,
            old(self).accounts@.len() == 0 ==> final(self).selected_index == old(self).selected_index,
            old(self).accounts@.len() > 0 ==> final(self).selected_index as int == (old(self).selected_index + 1) as int % old(self).accounts@.len() as int,
    {
        if self.accounts.len() > 0 {
            self.selected_index = (self.selected_index + 1) % self.accounts.len();
        }
    }

    /// Move the selection up, wrapping at the start; nothing happens
    /// on an empty list.
    pub fn previous(&mut self)
        requires
            old(self).wf(),
        ensures
            final(self).wf(),
            final(self).storage == old(self).storage,
            final(self).accounts == old(self).accounts,
            final(self).quotas == old(self).quotas,
            final(self).should_quit == old(self).should_quit,
            final(self).status_message == old(self).status_message,
            final(self).mode == old(self).mode,
            final(self).terminal_raw == old(self).terminal_raw,
            final(self).refresh_error == old(self).refresh_error,
            old(self).accounts@.len() == 0 ==> final(self).selected_index == old(self).selected_index,
            old(self).accounts@.len() > 0 ==> final(self).selected_index as int == if old(self).selected_index == 0 {
                old(self).accounts@.len() - 1
            } else {
                old(self).selected_index - 1
            },
    {
        if self.accounts.len() > 0 {
            self.selected_index = if self.selected_index == 0 {
                self.accounts.len() - 1
            } else {
                self.selected_index - 1
            };
        }
    }

    /// Begin a refresh pass: clear the quota cache and the error
    /// flag. The embedding then fetches account by account, in list
    /// order, feeding each outcome back.
    pub fn begin_refresh(&mut self)
        requires
            old(self).wf(),
        ensures
            final(self).wf(),
            final(self).storage == old(self).storage,
            final(self).accounts == old(self).accounts,
            final(self).selected_index == old(self).selected_index,
            final(self).should_quit == old(self).should_quit,
            final(self).mode == old(self).mode,
            final(self).terminal_raw == old(self).terminal_raw,
            final(self).quotas@.len() == 0,
            !final(self).refresh_error,
            final(self).status_message@ == "Refreshing quota information..."@,
    {
        self.quotas.clear();
        self.status_message = String::from_str("Refreshing quota information...");
        self.refresh_error = false;
    }

    /// The gateway step of one fetch: the provider to call and the
    /// credential to call it with, for the account at `index`.
    pub fn fetch_credentials(&self, index: usize) -> (r: Result<(ProviderKind, String), FetchError>)
        requires
            self.wf(),
            index < self.accounts@.len(),
        ensures
            match r {
                Ok((kind, blob)) => {
                    &&& self.storage.vault.is_available()
                    &&& self.storage.vault.spec_get(self.accounts@[index as int].name@) == Some(
                        blob@,
                    )
                    &&& (kind == ProviderKind::Copilot <==> self.accounts@[index as int].provider@
                        == "copilot"@)
                    &&& (kind == ProviderKind::OpenRouter <==> self.accounts@[
                        index as int
                    ].provider@ == "openrouter"@)
                },
                Err(e) => match e {
                    FetchError::Storage(se) => (!self.storage.vault.is_available() && se
                        == StorageError::StorageIo) || (self.storage.vault.is_available()
                        && self.storage.vault.spec_get(
                        self.accounts@[index as int].name@,
                    ) is None && se == StorageError::NotFound),
                    FetchError::Provider(pe) => pe
                        == crate::errors::ProviderError::NotSupportedByVendor
                        && self.storage.vault.is_available() && self.storage.vault.spec_get(
                        self.accounts@[index as int].name@,
                    ) is Some && self.accounts@[index as int].provider@ != "copilot"@
                        && self.accounts@[index as int].provider@ != "openrouter"@,
                },
            },
    {
        prepare_quota_fetch(&self.storage, &self.accounts[index])
    }

    /// Record a successful fetch for the account at `index`: stamp
    /// the snapshot with the account's name and cache it.
    pub fn record_quota(&mut self, index: usize, quota: QuotaInfo)
        requires
            old(self).wf(),
            index < old(self).accounts@.len(),
        ensures
            final(self).wf(),
            final(self).storage == old(self).storage,
            final(self).accounts == old(self).accounts,
            final(self).selected_index == old(self).selected_index,
            final(self).should_quit == old(self).should_quit,
            final(self).status_message == old(self).status_message,
            final(self).mode == old(self).mode,
            final(self).terminal_raw == old(self).terminal_raw,
            final(self).refresh_error == old(self).refresh_error,
            final(self).quotas@.len() == old(self).quotas@.len() + 1,
            final(self).quotas@.subrange(0, old(self).quotas@.len() as int) == old(self).quotas@,
            final(self).quotas@.last().account_name == old(self).accounts@[index as int].name,
            final(self).quotas@.last().provider == quota.provider,
            final(self).quotas@.last().usage == quota.usage,
            final(self).quotas@.last().limits == quota.limits,
            final(self).quotas@.last().reset_date == quota.reset_date,
            final(self).quotas@.last().last_updated == quota.last_updated,
    {
        let mut q = quota;
        q.account_name = self.accounts[index].name.clone();
        self.quotas.push(q);
        proof {
            assert(self.quotas@.subrange(0, old(self).quotas@.len() as int) =~= old(self).quotas@);
        }
    }

    /// Record a failed fetch for the account at `index`: the cache
    /// slot stays absent and the error becomes the status message —
    /// when several accounts fail in one pass, the last error wins.
    pub fn record_fetch_error(&mut self, index: usize, message: &str)
        requires
            old(self).wf(),
            index < old(self).accounts@.len(),
        ensures
            final(self).wf(),
            final(self).storage == old(self).storage,
            final(self).accounts == old(self).accounts,
            final(self).quotas == old(self).quotas,
            final(self).selected_index == old(self).selected_index,
            final(self).should_quit == old(self).should_quit,
            final(self).mode == old(self).mode,
            final(self).terminal_raw == old(self).terminal_raw,
            final(self).refresh_error,
            final(self).status_message@ == "Error fetching "@ + old(self).accounts@[
                index as int
            ].name@ + ": "@ + message@,
    {
        let mut st = String::from_str("Error fetching ");
        st.append(self.accounts[index].name.as_str());
        st.append(": ");
        st.append(message);
        self.status_message = st;
        self.refresh_error = true;
    }

    /// End a refresh pass: a clean pass reports when it finished (the
    /// embedding formats the clock time); a pass with failures keeps
    /// the last error on display.
    pub fn finish_refresh(&mut self, time_text: &str)
        requires
            old(self).wf(),
        ensures
            final(self).wf(),
            final(self).storage == old(self).storage,
            final(self).accounts == old(self).accounts,
            final(self).quotas == old(self).quotas,
            final(self).selected_index == old(self).selected_index,
            final(self).should_quit == old(self).should_quit,
            final(self).mode == old(self).mode,
            final(self).terminal_raw == old(self).terminal_raw,
            final(self).refresh_error == old(self).refresh_error,
            !old(self).refresh_error ==> final(self).status_message@ == "Last updated: "@
                + time_text@,
            old(self).refresh_error ==> final(self).status_message == old(self).status_message,
    {
        if !self.refresh_error {
            let mut st = String::from_str("Last updated: ");
            st.append(time_text);
            self.status_message = st;
        }
    }

    /// Hand the terminal to the login collaborator: leave raw mode
    /// before anything else may write to the screen.
    pub fn suspend_terminal(&mut self)
        requires
            old(self).wf(),
            old(self).terminal_raw,
        ensures
            final(self).wf(),
            !final(self).terminal_raw,
            final(self).storage == old(self).storage,
            final(self).accounts == old(self).accounts,
            final(self).quotas == old(self).quotas,
            final(self).selected_index == old(self).selected_index,
            final(self).should_quit == old(self).should_quit,
            final(self).status_message == old(self).status_message,
            final(self).mode == old(self).mode,
            final(self).refresh_error == old(self).refresh_error,
    {
        self.terminal_raw = false;
    }

    /// Take the terminal back after the collaborator returned —
    /// on success and on failure alike. Requiring a suspended
    /// terminal makes a double restoration a verification error.
    pub fn resume_terminal(&mut self)
        requires
            old(self).wf(),
            !old(self).terminal_raw,
        ensures
            final(self).wf(),
            final(self).terminal_raw,
            final(self).storage == old(self).storage,
            final(self).accounts == old(self).accounts,
            final(self).quotas == old(self).quotas,
            final(self).selected_index == old(self).selected_index,
            final(self).should_quit == old(self).should_quit,
            final(self).status_message == old(self).status_message,
            final(self).mode == old(self).mode,
            final(self).refresh_error == old(self).refresh_error,
    {
        self.terminal_raw = true;
    }

    /// A login flow ended well: persist the credential first and the
    /// account record second — a crash between the two orphans only a
    /// credential — then reload the list, select the new account (it
    /// sits at the end), and ask for a refresh. An unreachable vault
    /// turns the whole login into a reported failure instead.
    pub fn finish_login_success(
        &mut self,
        provider_id: &String,
        provider_name: &String,
        account_name: &String,
        credentials: &String,
        now: i64,
    ) -> (a: Action)
        requires
            old(self).wf(),
        ensures
            final(self).wf(),
            final(self).terminal_raw == old(self).terminal_raw,
            final(self).mode == old(self).mode,
            final(self).should_quit == old(self).should_quit,
            old(self).storage.vault.is_available() ==> {
                &&& a is StartRefresh
                &&& final(self).storage.accounts@ == upsert_spec(
                    old(self).storage.accounts@,
                    (Account {
                        name: *account_name,
                        provider: *provider_id,
                        email: None,
                        created_at: now,
                        last_updated: now,
                    }),
                )
                &&& final(self).storage.vault.spec_get(account_name@) == Some(credentials@)
                &&& final(self).storage.has_account(account_name@)
                &&& final(self).accounts@ == final(self).storage.accounts@
                &&& final(self).accounts@.len() > 0
                &&& final(self).selected_index == final(self).accounts@.len() - 1
                &&& final(self).accounts@.last().name@ == account_name@
                &&& final(self).status_message@ == "✓ "@ + provider_name@ + " account '"@
                    + account_name@ + "' added successfully"@
            },
            !old(self).storage.vault.is_available() ==> {
                &&& a is Idle
                &&& final(self).storage == old(self).storage
                &&& final(self).accounts == old(self).accounts
                &&& final(self).quotas == old(self).quotas
                &&& final(self).selected_index == old(self).selected_index
                &&& final(self).status_message@ == "Failed to add account: "@
                    + StorageError::StorageIo.spec_message()
            },
    {
        match self.storage.store_credentials(account_name, credentials) {
            Err(e) => {
                let mut st = String::from_str("Failed to add account: ");
                st.append(e.message());
                self.status_message = st;
                Action::Idle
            },
            Ok(()) => {
                let account = Account {
                    name: account_name.clone(),
                    provider: provider_id.clone(),
                    email: None,
                    created_at: now,
                    last_updated: now,
                };
                self.storage.save_account(account);
                self.accounts = self.storage.list_accounts();
                self.selected_index = self.accounts.len() - 1;
                let mut st = String::from_str("✓ ");
                st.append(provider_name.as_str());
                st.append(" account '");
                st.append(account_name.as_str());
                st.append("' added successfully");
                self.status_message = st;
                Action::StartRefresh
            },
        }
    }

    /// A login flow failed: report it and change nothing else; the
    /// mode is already `Viewing` and prior state stays untouched.
    pub fn finish_login_failure(&mut self, message: &str)
        requires
            old(self).wf(),
        ensures
            final(self).wf(),
            final(self).storage == old(self).storage,
            final(self).accounts == old(self).accounts,
            final(self).quotas == old(self).quotas,
            final(self).selected_index == old(self).selected_index,
            final(self).should_quit == old(self).should_quit,
            final(self).mode == old(self).mode,
            final(self).terminal_raw == old(self).terminal_raw,
            final(self).refresh_error == old(self).refresh_error,
            final(self).status_message@ == "Failed to add account: "@ + message@,
    {
        let mut st = String::from_str("Failed to add account: ");
        st.append(message);
        self.status_message = st;
    }


    /// A copy of a text buffer.
    fn copy_chars(v: &Vec<char>) -> (r: Vec<char>)
        ensures
            r@ == v@,
    {
        let mut r: Vec<char> = Vec::new();
        let mut i: usize = 0;
        let n = v.len();
        while i < n
            invariant
                i <= n,
                n == v@.len(),
                r@ =~= v@.subrange(0, i as int),
            decreases n - i,
        {
            r.push(v[i]);
            assert(r@ =~= v@.subrange(0, i + 1 as int));
            i = i + 1;
        }
        assert(r@ =~= v@);
        r
    }

    /// Keys in `Viewing`: quit, refresh, enter one of the dialog
    /// modes, or move the selection. Entering a dialog that acts on
    /// the selected account is refused while the list is empty.
    pub fn handle_viewing_key(&mut self, key: Key) -> (a: Action)
        requires
            old(self).wf(),
            old(self).mode is Viewing,
        ensures
            final(self).wf(),
            final(self).storage == old(self).storage,
            final(self).accounts == old(self).accounts,
            final(self).quotas == old(self).quotas,
            final(self).terminal_raw == old(self).terminal_raw,
            final(self).refresh_error == old(self).refresh_error,
            a is StartRefresh <==> key == Key::Char('R'),
            !(a is StartLogin),
            key == Key::Char('q') || key == Key::Esc ==> final(self).should_quit && final(self).mode is Viewing,
            !(key == Key::Char('q') || key == Key::Esc) ==> final(self).should_quit == old(self).should_quit,
            key == Key::Char('r') && old(self).accounts@.len() > 0 ==> (final(self).mode matches Mode::Renaming { buffer } && buffer@ == old(self).accounts@[old(self).selected_index as int].name@),
            key == Key::Char('n') ==> final(self).mode matches Mode::CreatingAccount {
                selected_provider: 0usize },
            key == Key::Char('d') && old(self).accounts@.len() > 0 ==> final(self).mode is Deleting,
            (key == Key::Char('r') || key == Key::Char('d')) && old(self).accounts@.len() == 0
                ==> final(self).mode is Viewing,
            key == Key::Down || key == Key::Char('j') ==> final(self).mode is Viewing && (old(self).accounts@.len() > 0 ==> final(self).selected_index as int == (old(self).selected_index + 1) as int % old(self).accounts@.len() as int),
            key == Key::Up || key == Key::Char('k') ==> final(self).mode is Viewing && (old(self).accounts@.len() > 0 ==> final(self).selected_index as int == (if old(self).selected_index == 0 {
                old(self).accounts@.len() - 1
            } else {
                old(self).selected_index as int - 1
            })),
            !(key == Key::Char('r') || key == Key::Char('n') || key == Key::Char('d')) ==> final(self).mode is Viewing,
    {
        match key {
            Key::Char(c) => {
                if c == 'q' {
                    self.should_quit = true;
                    Action::Idle
                } else if c == 'R' {
                    Action::StartRefresh
                } else if c == 'r' {
                    if self.accounts.len() > 0 {
                        let buffer = chars_of_str(
                            self.accounts[self.selected_index].name.as_str(),
                        );
                        self.mode = Mode::Renaming { buffer };
                        self.status_message = String::from_str(
                            "Renaming mode: press Enter to confirm, Esc to cancel",
                        );
                    }
                    Action::Idle
                } else if c == 'n' {
                    self.mode = Mode::CreatingAccount { selected_provider: 0 };
                    self.status_message = String::from_str(
                        "Select provider: Up/Down to navigate, Enter to select, Esc to cancel",
                    );
                    Action::Idle
                } else if c == 'd' {
                    if self.accounts.len() > 0 {
                        let mut st = String::from_str("Delete account '");
                        st.append(self.accounts[self.selected_index].name.as_str());
                        st.append("'? Press Enter to confirm, Esc to cancel");
                        self.status_message = st;
                        self.mode = Mode::Deleting;
                    }
                    Action::Idle
                } else if c == 'j' {
                    self.next();
                    Action::Idle
                } else if c == 'k' {
                    self.previous();
                    Action::Idle
                } else {
                    Action::Idle
                }
            },
            Key::Esc => {
                self.should_quit = true;
                Action::Idle
            },
            Key::Down => {
                self.next();
                Action::Idle
            },
            Key::Up => {
                self.previous();
                Action::Idle
            },
            _ => Action::Idle,
        }
    }

    /// Keys in `Renaming`: edit the buffer; confirm renames the
    /// selected account through the storage facade and returns to
    /// `Viewing` — a blank name stays in the dialog with an error, a
    /// storage failure returns to `Viewing` with the error as status
    /// and the in-memory list untouched; cancel discards the buffer.
    pub fn handle_renaming_key(&mut self, key: Key, now: i64) -> (a: Action)
        requires
            old(self).wf(),
            old(self).mode is Renaming,
        ensures
            final(self).wf(),
            final(self).terminal_raw == old(self).terminal_raw,
            final(self).should_quit == old(self).should_quit,
            final(self).quotas == old(self).quotas,
            final(self).selected_index == old(self).selected_index,
            !(a is StartLogin),
            key == Key::Esc ==> final(self).mode is Viewing && final(self).storage == old(self).storage && final(self).accounts == old(self).accounts && final(self).status_message@
                == "Rename cancelled"@ && a is Idle,
            old(self).mode matches Mode::Renaming { buffer } ==> (key == Key::Enter ==> {
                let new_name = trimmed(buffer@);
                let old_name = old(self).accounts@[old(self).selected_index as int].name;
                if new_name.len() == 0 {
                    &&& final(self).mode == old(self).mode
                    &&& final(self).storage == old(self).storage
                    &&& final(self).accounts == old(self).accounts
                    &&& final(self).status_message@ == "Name cannot be empty"@
                    &&& a is Idle
                } else {
                    &&& final(self).mode is Viewing
                    &&& match old(self).storage.rename_err(old_name@, new_name) {
                        Option::None => {
                            &&& a is StartRefresh
                            &&& final(self).status_message@ == "Account renamed"@
                            &&& final(self).storage.wf()
                            &&& (old_name@ != new_name ==> final(self).storage.has_account(
                                new_name,
                            ) && !final(self).storage.has_account(old_name@))
                            &&& final(self).accounts@.len() == old(self).accounts@.len()
                            &&& final(self).accounts@[old(self).selected_index as int].name@
                                == new_name
                            &&& final(self).accounts@[old(self).selected_index as int].provider
                                == old(self).accounts@[old(self).selected_index as int].provider
                            &&& final(self).accounts@[old(self).selected_index as int].email
                                == old(self).accounts@[old(self).selected_index as int].email
                            &&& final(self).accounts@[old(self).selected_index as int].created_at
                                == old(self).accounts@[old(self).selected_index as int].created_at
                            &&& forall|j: int|
                                0 <= j < old(self).accounts@.len() && j != old(self).selected_index as int ==> final(self).accounts@[j] == old(self).accounts@[j]
                        },
                        Option::Some(e) => {
                            &&& a is Idle
                            &&& final(self).status_message@ == "Rename failed: "@
                                + e.spec_message()
                            &&& final(self).accounts == old(self).accounts
                            &&& final(self).storage.accounts == old(self).storage.accounts
                            &&& final(self).storage.histories == old(self).storage.histories
                        },
                    }
                }
            }),
            old(self).mode matches Mode::Renaming { buffer } ==> (key == Key::Backspace ==> (final(self).mode matches Mode::Renaming { buffer: b2 } && b2@ == (if buffer@.len() > 0 {
                buffer@.subrange(0, buffer@.len() - 1)
            } else {
                buffer@
            }) && final(self).storage == old(self).storage && final(self).accounts == old(self).accounts && a is Idle)),
            key matches Key::Char(c) ==> (!crate::text::is_control_char(c) ==> (old(self).mode matches Mode::Renaming { buffer } ==> (final(self).mode matches Mode::Renaming {
                buffer: b2 } && b2@ == buffer@.push(c) && final(self).storage == old(self).storage && final(self).accounts == old(self).accounts && a is Idle))),
            !(key == Key::Enter || key == Key::Esc) ==> final(self).mode is Renaming && final(self).storage == old(self).storage && final(self).accounts == old(self).accounts,
    {
        match key {
            Key::Enter => {
                let buffer_copy = match &self.mode {
                    Mode::Renaming { buffer } => Self::copy_chars(buffer),
                    _ => {
                        proof {
                            assert(false);
                        }
                        Vec::new()
                    },
                };
                let t = trim_chars(&buffer_copy);
                if t.len() == 0 {
                    self.status_message = String::from_str("Name cannot be empty");
                    Action::Idle
                } else {
                    let new_name = string_from_chars(&t);
                    let old_name = self.accounts[self.selected_index].name.clone();
                    match self.storage.rename_account(&old_name, &new_name, now) {
                        Ok(()) => {
                            let mut acc = self.accounts.remove(self.selected_index);
                            acc.name = new_name;
                            self.accounts.insert(self.selected_index, acc);
                            proof {
                                assert(self.accounts@ =~= old(self).accounts@.update(
                                    old(self).selected_index as int,
                                    self.accounts@[old(self).selected_index as int],
                                ));
                            }
                            self.status_message = String::from_str("Account renamed");
                            self.mode = Mode::Viewing;
                            Action::StartRefresh
                        },
                        Err(e) => {
                            let mut st = String::from_str("Rename failed: ");
                            st.append(e.message());
                            self.status_message = st;
                            self.mode = Mode::Viewing;
                            Action::Idle
                        },
                    }
                }
            },
            Key::Esc => {
                self.mode = Mode::Viewing;
                self.status_message = String::from_str("Rename cancelled");
                Action::Idle
            },
            Key::Backspace => {
                match &mut self.mode {
                    Mode::Renaming { buffer } => {
                        buffer.pop();
                    },
                    _ => {},
                }
                Action::Idle
            },
            Key::Char(c) => {
                if !is_control(c) {
                    match &mut self.mode {
                        Mode::Renaming { buffer } => {
                            buffer.push(c);
                        },
                        _ => {},
                    }
                }
                Action::Idle
            },
            _ => Action::Idle,
        }
    }

    /// Keys in the provider-choice step: move the cursor through the
    /// fixed provider list (clamped at the ends), confirm to go on to
    /// the name step pre-seeded with a default name of the form
    /// `provider_timestamp`, or cancel back to `Viewing`.
    pub fn handle_creating_key(&mut self, key: Key, now: i64) -> (a: Action)
        requires
            old(self).wf(),
            old(self).mode is CreatingAccount,
            0 <= now,
        ensures
            final(self).wf(),
            final(self).storage == old(self).storage,
            final(self).accounts == old(self).accounts,
            final(self).quotas == old(self).quotas,
            final(self).selected_index == old(self).selected_index,
            final(self).should_quit == old(self).should_quit,
            final(self).terminal_raw == old(self).terminal_raw,
            final(self).refresh_error == old(self).refresh_error,
            a is Idle,
            key == Key::Esc ==> final(self).mode is Viewing && final(self).status_message@
                == "Account creation cancelled"@,
            old(self).mode matches Mode::CreatingAccount { selected_provider } ==> (key
                == Key::Enter ==> (final(self).mode matches Mode::CreatingAccountName {
                provider_id,
                provider_name,
                buffer,
            } && provider_id@ == spec_provider_id(selected_provider as int) && provider_name@
                == spec_provider_label(selected_provider as int) && buffer@ == spec_provider_id(
                selected_provider as int,
            ) + seq!['_'] + dec_seq(now as nat) && final(self).status_message@
                == "Enter account name (optional, press Enter for default):"@)),
            old(self).mode matches Mode::CreatingAccount { selected_provider } ==> ((key
                == Key::Down || key == Key::Char('j')) ==> (final(self).mode matches Mode::CreatingAccount { selected_provider: sp2 } && sp2 as int == (
            if selected_provider as int + 1 < 2 {
                selected_provider as int + 1
            } else {
                selected_provider as int
            }))),
            old(self).mode matches Mode::CreatingAccount { selected_provider } ==> ((key == Key::Up
                || key == Key::Char('k')) ==> (final(self).mode matches Mode::CreatingAccount {
                selected_provider: sp2,
            } && sp2 as int == (if selected_provider > 0 {
                selected_provider as int - 1
            } else {
                selected_provider as int
            }))),
            !(key == Key::Enter || key == Key::Esc) ==> final(self).mode is CreatingAccount
                && final(self).status_message == old(self).status_message,
    {
        match key {
            Key::Enter => {
                let sp = match &self.mode {
                    Mode::CreatingAccount { selected_provider } => *selected_provider,
                    _ => {
                        proof {
                            assert(false);
                        }
                        0
                    },
                };
                let (pid, pname) = provider_entry(sp);
                let mut buffer = chars_of_str(pid);
                buffer.push('_');
                let mut digits = u64_to_dec(now as u64);
                buffer.append(&mut digits);
                proof {
                    assert(now as u64 as nat == now as nat);
                    assert(buffer@ =~= spec_provider_id(sp as int) + seq!['_'] + dec_seq(
                        now as nat,
                    ));
                }
                self.mode = Mode::CreatingAccountName {
                    provider_id: String::from_str(pid),
                    provider_name: String::from_str(pname),
                    buffer,
                };
                self.status_message = String::from_str(
                    "Enter account name (optional, press Enter for default):",
                );
                Action::Idle
            },
            Key::Esc => {
                self.mode = Mode::Viewing;
                self.status_message = String::from_str("Account creation cancelled");
                Action::Idle
            },
            Key::Down => {
                match &mut self.mode {
                    Mode::CreatingAccount { selected_provider } => {
                        if *selected_provider < 1 {
                            *selected_provider = *selected_provider + 1;
                        }
                    },
                    _ => {},
                }
                Action::Idle
            },
            Key::Up => {
                match &mut self.mode {
                    Mode::CreatingAccount { selected_provider } => {
                        if *selected_provider > 0 {
                            *selected_provider = *selected_provider - 1;
                        }
                    },
                    _ => {},
                }
                Action::Idle
            },
            Key::Char(c) => {
                if c == 'j' {
                    match &mut self.mode {
                        Mode::CreatingAccount { selected_provider } => {
                            if *selected_provider < 1 {
                                *selected_provider = *selected_provider + 1;
                            }
                        },
                        _ => {},
                    }
                } else if c == 'k' {
                    match &mut self.mode {
                        Mode::CreatingAccount { selected_provider } => {
                            if *selected_provider > 0 {
                                *selected_provider = *selected_provider - 1;
                            }
                        },
                        _ => {},
                    }
                }
                Action::Idle
            },
            _ => Action::Idle,
        }
    }

    /// Keys in the name step: edit the buffer; confirm resolves the
    /// account name — the trimmed buffer, or a fresh
    /// `provider_timestamp` default when blank — returns to `Viewing`
    /// and hands the login work to the event loop; cancel returns to
    /// `Viewing` without invoking any login.
    pub fn handle_naming_key(&mut self, key: Key, now: i64) -> (a: Action)
        requires
            old(self).wf(),
            old(self).mode is CreatingAccountName,
            0 <= now,
        ensures
            final(self).wf(),
            final(self).storage == old(self).storage,
            final(self).accounts == old(self).accounts,
            final(self).quotas == old(self).quotas,
            final(self).selected_index == old(self).selected_index,
            final(self).should_quit == old(self).should_quit,
            final(self).terminal_raw == old(self).terminal_raw,
            final(self).refresh_error == old(self).refresh_error,
            a is StartLogin <==> key == Key::Enter,
            key == Key::Esc ==> final(self).mode is Viewing && final(self).status_message@
                == "Account creation cancelled"@,
            old(self).mode matches Mode::CreatingAccountName { provider_id, provider_name, buffer }
                ==> (key == Key::Enter ==> (final(self).mode is Viewing && final(self).status_message@ == "Creating "@ + provider_name@ + " account..."@ && (
            a matches Action::StartLogin { provider_id: pid2, account_name } && pid2@
                == provider_id@ && account_name@ == (if trimmed(buffer@).len() == 0 {
                provider_id@ + seq!['_'] + dec_seq(now as nat)
            } else {
                trimmed(buffer@)
            })))),
            old(self).mode matches Mode::CreatingAccountName { provider_id, provider_name, buffer }
                ==> (key == Key::Backspace ==> (final(self).mode matches Mode::CreatingAccountName {
                provider_id: p2,
                provider_name: n2,
                buffer: b2,
            } && p2 == provider_id && n2 == provider_name && b2@ == (if buffer@.len() > 0 {
                buffer@.subrange(0, buffer@.len() - 1)
            } else {
                buffer@
            }))),
            key matches Key::Char(c) ==> (!crate::text::is_control_char(c) ==> (old(self).mode matches Mode::CreatingAccountName { provider_id, provider_name, buffer } ==> (
            final(self).mode matches Mode::CreatingAccountName {
                provider_id: p2,
                provider_name: n2,
                buffer: b2,
            } && p2 == provider_id && n2 == provider_name && b2@ == buffer@.push(c)))),
            !(key == Key::Enter || key == Key::Esc) ==> final(self).mode is CreatingAccountName,
    {
        match key {
            Key::Enter => {
                let (pid, pname, buf) = match &self.mode {
                    Mode::CreatingAccountName { provider_id, provider_name, buffer } => (
                        provider_id.clone(),
                        provider_name.clone(),
                        Self::copy_chars(buffer),
                    ),
                    _ => {
                        proof {
                            assert(false);
                        }
                        (String::new(), String::new(), Vec::new())
                    },
                };
                let t = trim_chars(&buf);
                let account_name = if t.len() == 0 {
                    let mut chars = chars_of_str(pid.as_str());
                    chars.push('_');
                    let mut digits = u64_to_dec(now as u64);
                    chars.append(&mut digits);
                    proof {
                        assert(now as u64 as nat == now as nat);
                    }
                    string_from_chars(&chars)
                } else {
                    string_from_chars(&t)
                };
                let mut st = String::from_str("Creating ");
                st.append(pname.as_str());
                st.append(" account...");
                self.status_message = st;
                self.mode = Mode::Viewing;
                Action::StartLogin { provider_id: pid, account_name }
            },
            Key::Esc => {
                self.mode = Mode::Viewing;
                self.status_message = String::from_str("Account creation cancelled");
                Action::Idle
            },
            Key::Backspace => {
                match &mut self.mode {
                    Mode::CreatingAccountName { buffer, .. } => {
                        buffer.pop();
                    },
                    _ => {},
                }
                Action::Idle
            },
            Key::Char(c) => {
                if !is_control(c) {
                    match &mut self.mode {
                        Mode::CreatingAccountName { buffer, .. } => {
                            buffer.push(c);
                        },
                        _ => {},
                    }
                }
                Action::Idle
            },
            _ => Action::Idle,
        }
    }

    /// Keys in `Deleting`: confirm removes the selected account
    /// through the storage facade, reloads the list, clamps the
    /// selection and clears the quota cache; a storage failure only
    /// reports. Both confirm branches and cancel return to `Viewing`.
    pub fn handle_deleting_key(&mut self, key: Key) -> (a: Action)
        requires
            old(self).wf(),
            old(self).mode is Deleting,
        ensures
            final(self).wf(),
            final(self).terminal_raw == old(self).terminal_raw,
            final(self).should_quit == old(self).should_quit,
            !(a is StartLogin),
            key == Key::Esc ==> final(self).mode is Viewing && final(self).storage == old(self).storage && final(self).accounts == old(self).accounts && final(self).quotas == old(self).quotas && final(self).status_message@ == "Delete cancelled"@ && a is Idle,
            key == Key::Enter ==> final(self).mode is Viewing && ({
                let name = old(self).accounts@[old(self).selected_index as int].name;
                match old(self).storage.remove_err(name@) {
                    Option::None => {
                        &&& a is StartRefresh
                        &&& final(self).storage.wf()
                        &&& !final(self).storage.has_account(name@)
                        &&& final(self).accounts@ == drop_account(
                            old(self).storage.accounts@,
                            name@,
                        )
                        &&& final(self).quotas@.len() == 0
                        &&& final(self).selected_index as int == (if final(self).accounts@.len()
                            == 0 {
                            0int
                        } else if old(self).selected_index < final(self).accounts@.len() {
                            old(self).selected_index as int
                        } else {
                            final(self).accounts@.len() - 1
                        })
                        &&& final(self).status_message@ == "Account '"@ + name@ + "' deleted"@
                    },
                    Option::Some(e) => {
                        &&& a is Idle
                        &&& final(self).storage == old(self).storage
                        &&& final(self).accounts == old(self).accounts
                        &&& final(self).quotas == old(self).quotas
                        &&& final(self).status_message@ == "Failed to delete account: "@
                            + e.spec_message()
                    },
                }
            }),
            !(key == Key::Enter || key == Key::Esc) ==> final(self).mode is Deleting && final(self).storage == old(self).storage && final(self).accounts == old(self).accounts && final(self).quotas == old(self).quotas && a is Idle,
    {
        match key {
            Key::Enter => {
                let name = self.accounts[self.selected_index].name.clone();
                let res = self.storage.remove_account(&name);
                self.mode = Mode::Viewing;
                match res {
                    Ok(()) => {
                        self.accounts = self.storage.list_accounts();
                        if self.accounts.len() == 0 {
                            self.selected_index = 0;
                        } else if self.selected_index >= self.accounts.len() {
                            self.selected_index = self.accounts.len() - 1;
                        }
                        self.quotas.clear();
                        let mut st = String::from_str("Account '");
                        st.append(name.as_str());
                        st.append("' deleted");
                        self.status_message = st;
                        Action::StartRefresh
                    },
                    Err(e) => {
                        let mut st = String::from_str("Failed to delete account: ");
                        st.append(e.message());
                        self.status_message = st;
                        Action::Idle
                    },
                }
            },
            Key::Esc => {
                self.mode = Mode::Viewing;
                self.status_message = String::from_str("Delete cancelled");
                Action::Idle
            },
            _ => Action::Idle,
        }
    }

    /// Dispatch one key to the active mode's handler. The clauses
    /// below state the mode machine's totality: cancel leaves any
    /// non-`Viewing` mode for `Viewing`, and confirm does too — the
    /// provider-choice step advances to the name step, whose both
    /// exits return to `Viewing`, and a rename confirm only stays put
    /// on a blank name, which it reports.
    pub fn handle_key(&mut self, key: Key, now: i64) -> (a: Action)
        requires
            old(self).wf(),
            0 <= now,
        ensures
            final(self).wf(),
            final(self).terminal_raw == old(self).terminal_raw,
            key == Key::Esc && !(old(self).mode is Viewing) ==> final(self).mode is Viewing,
            key == Key::Enter && old(self).mode is Deleting ==> final(self).mode is Viewing,
            key == Key::Enter && old(self).mode is CreatingAccountName ==> final(self).mode is Viewing,
            key == Key::Enter && old(self).mode is CreatingAccount ==> final(self).mode is CreatingAccountName,
            old(self).mode matches Mode::Renaming { buffer } ==> (key == Key::Enter ==> (if trimmed(
                buffer@,
            ).len() == 0 {
                final(self).mode is Renaming
            } else {
                final(self).mode is Viewing
            })),
            key == Key::Char('n') && old(self).mode is Viewing ==> final(self).mode matches Mode::CreatingAccount { selected_provider: 0usize },
            old(self).mode matches Mode::CreatingAccount { selected_provider } ==> (key
                == Key::Enter ==> (final(self).mode matches Mode::CreatingAccountName {
                provider_id,
                provider_name,
                buffer,
            } && provider_id@ == spec_provider_id(selected_provider as int) && provider_name@
                == spec_provider_label(selected_provider as int) && buffer@ == spec_provider_id(
                selected_provider as int,
            ) + seq!['_'] + dec_seq(now as nat))),
            old(self).mode matches Mode::CreatingAccountName { provider_id, provider_name, buffer }
                ==> (key == Key::Enter ==> (a matches Action::StartLogin {
                provider_id: pid2,
                account_name,
            } && pid2@ == provider_id@ && account_name@ == (if trimmed(buffer@).len() == 0 {
                provider_id@ + seq!['_'] + dec_seq(now as nat)
            } else {
                trimmed(buffer@)
            }))),
    {
        let tag: u8 = match &self.mode {
            Mode::Viewing => 0,
            Mode::Renaming { .. } => 1,
            Mode::CreatingAccount { .. } => 2,
            Mode::CreatingAccountName { .. } => 3,
            Mode::Deleting => 4,
        };
        if tag == 0 {
            self.handle_viewing_key(key)
        } else if tag == 1 {
            self.handle_renaming_key(key, now)
        } else if tag == 2 {
            self.handle_creating_key(key, now)
        } else if tag == 3 {
            self.handle_naming_key(key, now)
        } else {
            self.handle_deleting_key(key)
        }
    }

    /// Handle one key at the current clock time: what the event loop
    /// calls. The clock only feeds timestamps — default account names
    /// and `last_updated` marks — so everything the mode machine
    /// promises holds whatever the clock read; `handle_key` states
    /// the time-dependent parts over its explicit `now`.
    pub fn handle_key_now(&mut self, key: Key) -> (a: Action)
        requires
            old(self).wf(),
        ensures
            final(self).wf(),
            final(self).terminal_raw == old(self).terminal_raw,
            key == Key::Esc && !(old(self).mode is Viewing) ==> final(self).mode is Viewing,
            key == Key::Enter && old(self).mode is Deleting ==> final(self).mode is Viewing,
            key == Key::Enter && old(self).mode is CreatingAccountName ==> final(self).mode is Viewing,
            key == Key::Enter && old(self).mode is CreatingAccount ==> final(self).mode is CreatingAccountName,
            old(self).mode matches Mode::Renaming { buffer } ==> (key == Key::Enter ==> (
            if trimmed(buffer@).len() == 0 {
                final(self).mode is Renaming
            } else {
                final(self).mode is Viewing
            })),
            key == Key::Char('n') && old(self).mode is Viewing ==> final(self).mode matches Mode::CreatingAccount { selected_provider: 0usize },
    {
        let now = crate::time::current_unix_time();
        self.handle_key(key, now)
    }

    /// The modal overlay this frame shows: exactly one in any
    /// non-`Viewing` mode, none in `Viewing` — the renderer draws
    /// from this model and cannot stack or lose a dialog.
    pub fn frame_model(&self) -> (m: FrameModel)
        requires
            self.wf(),
        ensures
            self.mode is Viewing ==> m.overlay_count() == 0,
            !(self.mode is Viewing) ==> m.overlay_count() == 1,
            m.rename_dialog is Some <==> self.mode is Renaming,
            m.provider_dialog is Some <==> self.mode is CreatingAccount,
            m.name_dialog is Some <==> self.mode is CreatingAccountName,
            m.delete_dialog <==> self.mode is Deleting,
            self.mode matches Mode::Renaming { buffer } ==> (m.rename_dialog matches Some(text)
                && text@ == buffer@),
            self.mode matches Mode::CreatingAccount { selected_provider } ==> m.provider_dialog
                == Some(selected_provider) && selected_provider < 2,
            self.mode matches Mode::CreatingAccountName { provider_id, provider_name, buffer }
                ==> (m.name_dialog matches Some((label, text)) && label == provider_name && text@
                == buffer@),
    {
        match &self.mode {
            Mode::Viewing => FrameModel {
                rename_dialog: None,
                provider_dialog: None,
                name_dialog: None,
                delete_dialog: false,
            },
            Mode::Renaming { buffer } => FrameModel {
                rename_dialog: Some(string_from_chars(buffer)),
                provider_dialog: None,
                name_dialog: None,
                delete_dialog: false,
            },
            Mode::CreatingAccount { selected_provider } => FrameModel {
                rename_dialog: None,
                provider_dialog: Some(*selected_provider),
                name_dialog: None,
                delete_dialog: false,
            },
            Mode::CreatingAccountName { provider_name, buffer, .. } => FrameModel {
                rename_dialog: None,
                provider_dialog: None,
                name_dialog: Some((provider_name.clone(), string_from_chars(buffer))),
                delete_dialog: false,
            },
            Mode::Deleting => FrameModel {
                rename_dialog: None,
                provider_dialog: None,
                name_dialog: None,
                delete_dialog: true,
            },
        }
    }

    /// Whether the idle timer asks for a refresh: the fixed interval
    /// has elapsed since the last one.
    pub fn refresh_due(last_refresh: i64, now: i64, interval: i64) -> (r: bool)
        ensures
            r == (now - last_refresh >= interval),
    {
        let diff = (now as i128) - (last_refresh as i128);
        diff >= interval as i128
    }
}

} // verus!
