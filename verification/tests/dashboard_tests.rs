use tokstat::account::Account;
use tokstat::dashboard::{Action, App, Key, Mode};
use tokstat::quota::{QuotaInfo, TokenUsage};
use tokstat::storage::SecureStorage;

fn account(name: &str, provider: &str, ts: i64) -> Account {
    Account {
        name: String::from(name),
        provider: String::from(provider),
        email: None,
        created_at: ts,
        last_updated: ts,
    }
}

fn app_with(names: &[&str]) -> App {
    let mut storage = SecureStorage::new();
    let mut accounts = Vec::new();
    for (i, n) in names.iter().enumerate() {
        storage
            .store_credentials(&String::from(*n), &String::from("blob"))
            .unwrap();
        storage.save_account(account(n, "copilot", i as i64));
        accounts.push(account(n, "copilot", i as i64));
    }
    App::new(storage, accounts)
}

#[test]
fn quit_keys_stop_the_loop() {
    let mut app = app_with(&["a"]);
    app.handle_key(Key::Char('q'), 0);
    assert!(app.should_quit);
    let mut app = app_with(&["a"]);
    app.handle_key(Key::Esc, 0);
    assert!(app.should_quit);
}

#[test]
fn refresh_key_requests_a_refresh() {
    let mut app = app_with(&["a"]);
    let action = app.handle_key(Key::Char('R'), 0);
    assert!(matches!(action, Action::StartRefresh));
}

#[test]
fn navigation_wraps_around() {
    let mut app = app_with(&["a", "b", "c"]);
    assert_eq!(app.selected_index, 0);
    app.handle_key(Key::Down, 0);
    assert_eq!(app.selected_index, 1);
    app.handle_key(Key::Char('j'), 0);
    assert_eq!(app.selected_index, 2);
    app.handle_key(Key::Down, 0);
    assert_eq!(app.selected_index, 0);
    app.handle_key(Key::Up, 0);
    assert_eq!(app.selected_index, 2);
    app.handle_key(Key::Char('k'), 0);
    assert_eq!(app.selected_index, 1);
}

#[test]
fn navigation_ignores_empty_list() {
    let mut app = app_with(&[]);
    app.handle_key(Key::Down, 0);
    assert_eq!(app.selected_index, 0);
    app.handle_key(Key::Up, 0);
    assert_eq!(app.selected_index, 0);
}

#[test]
fn rename_key_seeds_buffer_with_current_name() {
    let mut app = app_with(&["work"]);
    app.handle_key(Key::Char('r'), 0);
    match &app.mode {
        Mode::Renaming { buffer } => {
            let text: String = buffer.iter().collect();
            assert_eq!(text, "work");
        },
        _ => panic!("expected renaming mode"),
    }
}

#[test]
fn rename_and_delete_need_an_account() {
    let mut app = app_with(&[]);
    app.handle_key(Key::Char('r'), 0);
    assert!(matches!(app.mode, Mode::Viewing));
    app.handle_key(Key::Char('d'), 0);
    assert!(matches!(app.mode, Mode::Viewing));
}

#[test]
fn confirm_and_cancel_return_to_viewing_from_every_mode() {
    // Renaming: cancel.
    let mut app = app_with(&["a"]);
    app.handle_key(Key::Char('r'), 0);
    app.handle_key(Key::Esc, 0);
    assert!(matches!(app.mode, Mode::Viewing));
    // Renaming: confirm with a non-blank buffer.
    let mut app = app_with(&["a"]);
    app.handle_key(Key::Char('r'), 0);
    app.handle_key(Key::Enter, 5);
    assert!(matches!(app.mode, Mode::Viewing));
    // Provider choice: cancel; confirm advances to the name step,
    // whose confirm and cancel both land in Viewing.
    let mut app = app_with(&["a"]);
    app.handle_key(Key::Char('n'), 0);
    app.handle_key(Key::Esc, 0);
    assert!(matches!(app.mode, Mode::Viewing));
    let mut app = app_with(&["a"]);
    app.handle_key(Key::Char('n'), 0);
    app.handle_key(Key::Enter, 7);
    assert!(matches!(app.mode, Mode::CreatingAccountName { .. }));
    app.handle_key(Key::Esc, 7);
    assert!(matches!(app.mode, Mode::Viewing));
    let mut app = app_with(&["a"]);
    app.handle_key(Key::Char('n'), 0);
    app.handle_key(Key::Enter, 7);
    app.handle_key(Key::Enter, 7);
    assert!(matches!(app.mode, Mode::Viewing));
    // Deleting: both.
    let mut app = app_with(&["a"]);
    app.handle_key(Key::Char('d'), 0);
    app.handle_key(Key::Esc, 0);
    assert!(matches!(app.mode, Mode::Viewing));
    let mut app = app_with(&["a"]);
    app.handle_key(Key::Char('d'), 0);
    app.handle_key(Key::Enter, 0);
    assert!(matches!(app.mode, Mode::Viewing));
}

#[test]
fn blank_rename_stays_in_dialog() {
    let mut app = app_with(&["a"]);
    app.handle_key(Key::Char('r'), 0);
    // Erase the seeded name, then type only spaces.
    app.handle_key(Key::Backspace, 0);
    app.handle_key(Key::Char(' '), 0);
    app.handle_key(Key::Enter, 0);
    assert!(matches!(app.mode, Mode::Renaming { .. }));
    assert_eq!(app.status_message, "Name cannot be empty");
}

#[test]
fn rename_confirm_updates_storage_and_list() {
    let mut app = app_with(&["old"]);
    app.handle_key(Key::Char('r'), 0);
    for c in "er".chars() {
        app.handle_key(Key::Char(c), 0);
    }
    let action = app.handle_key(Key::Enter, 42);
    assert!(matches!(action, Action::StartRefresh));
    assert_eq!(app.accounts[0].name, "older");
    assert_eq!(app.status_message, "Account renamed");
    let stored = app.storage.list_accounts();
    assert_eq!(stored[0].name, "older");
    assert_eq!(stored[0].last_updated, 42);
}

#[test]
fn rename_collision_reports_and_keeps_state() {
    let mut app = app_with(&["a", "b"]);
    app.handle_key(Key::Char('r'), 0);
    // Buffer holds "a"; erase it and type "b".
    app.handle_key(Key::Backspace, 0);
    app.handle_key(Key::Char('b'), 0);
    let action = app.handle_key(Key::Enter, 5);
    assert!(matches!(action, Action::Idle));
    assert!(matches!(app.mode, Mode::Viewing));
    assert_eq!(app.accounts[0].name, "a");
    assert_eq!(
        app.status_message,
        "Rename failed: an account with that name already exists"
    );
}

#[test]
fn control_characters_are_not_typed() {
    let mut app = app_with(&["a"]);
    app.handle_key(Key::Char('r'), 0);
    app.handle_key(Key::Char('\u{7}'), 0);
    match &app.mode {
        Mode::Renaming { buffer } => {
            let text: String = buffer.iter().collect();
            assert_eq!(text, "a");
        },
        _ => panic!("expected renaming mode"),
    }
}

#[test]
fn provider_cursor_clamps_at_both_ends() {
    let mut app = app_with(&[]);
    app.handle_key(Key::Char('n'), 0);
    app.handle_key(Key::Up, 0);
    assert!(matches!(app.mode, Mode::CreatingAccount { selected_provider: 0 }));
    app.handle_key(Key::Down, 0);
    assert!(matches!(app.mode, Mode::CreatingAccount { selected_provider: 1 }));
    app.handle_key(Key::Char('j'), 0);
    assert!(matches!(app.mode, Mode::CreatingAccount { selected_provider: 1 }));
    app.handle_key(Key::Char('k'), 0);
    assert!(matches!(app.mode, Mode::CreatingAccount { selected_provider: 0 }));
}

#[test]
fn empty_name_creation_uses_provider_and_timestamp() {
    // Start with zero accounts; create a provider account with an
    // empty (blanked) name input.
    let mut app = app_with(&[]);
    app.handle_key(Key::Char('n'), 0);
    app.handle_key(Key::Enter, 1111);
    // Blank the pre-seeded default name completely.
    loop {
        let done = match &app.mode {
            Mode::CreatingAccountName { buffer, .. } => buffer.is_empty(),
            _ => panic!("expected name entry mode"),
        };
        if done {
            break;
        }
        app.handle_key(Key::Backspace, 1111);
    }
    let action = app.handle_key(Key::Enter, 2222);
    let (provider_id, account_name) = match action {
        Action::StartLogin { provider_id, account_name } => (provider_id, account_name),
        _ => panic!("expected a login hand-off"),
    };
    assert_eq!(provider_id, "copilot");
    // The resolved name is the provider id joined to the timestamp at
    // confirm time.
    assert_eq!(account_name, "copilot_2222");
    // The login collaborator succeeded: the account appears in the
    // index and becomes the selected account.
    let a = app.handle_key(Key::Char('x'), 0); // unrelated key: no action
    assert!(matches!(a, Action::Idle));
    app.suspend_terminal();
    app.resume_terminal();
    let action = app.finish_login_success(
        &provider_id,
        &String::from("GitHub Copilot"),
        &account_name,
        &String::from("blob"),
        2222,
    );
    assert!(matches!(action, Action::StartRefresh));
    assert_eq!(app.accounts.len(), 1);
    assert_eq!(app.accounts[0].name, "copilot_2222");
    assert_eq!(app.selected_index, 0);
    assert!(app.storage.get_account(&account_name).is_ok());
    assert_eq!(
        app.status_message,
        "✓ GitHub Copilot account 'copilot_2222' added successfully"
    );
}

#[test]
fn typed_name_creation_uses_the_trimmed_buffer() {
    let mut app = app_with(&[]);
    app.handle_key(Key::Char('n'), 0);
    app.handle_key(Key::Down, 0);
    app.handle_key(Key::Enter, 50);
    // Blank the default, then type a padded name.
    loop {
        let done = match &app.mode {
            Mode::CreatingAccountName { buffer, .. } => buffer.is_empty(),
            _ => panic!("expected name entry mode"),
        };
        if done {
            break;
        }
        app.handle_key(Key::Backspace, 50);
    }
    for c in "  main  ".chars() {
        app.handle_key(Key::Char(c), 50);
    }
    let action = app.handle_key(Key::Enter, 60);
    match action {
        Action::StartLogin { provider_id, account_name } => {
            assert_eq!(provider_id, "openrouter");
            assert_eq!(account_name, "main");
        },
        _ => panic!("expected a login hand-off"),
    }
    assert_eq!(app.status_message, "Creating OpenRouter account...");
}

#[test]
fn failed_login_restores_terminal_exactly_once() {
    let mut app = app_with(&[]);
    app.handle_key(Key::Char('n'), 0);
    app.handle_key(Key::Enter, 10);
    let action = app.handle_key(Key::Enter, 10);
    assert!(matches!(action, Action::StartLogin { .. }));
    // Raw mode is active when the collaborator is invoked...
    assert!(app.terminal_raw);
    app.suspend_terminal();
    assert!(!app.terminal_raw);
    // ... the collaborator fails ...
    app.resume_terminal();
    app.finish_login_failure("access denied by user");
    // ... and raw mode is restored exactly once afterward.
    assert!(app.terminal_raw);
    assert_eq!(app.status_message, "Failed to add account: access denied by user");
    assert_eq!(app.accounts.len(), 0);
}

#[test]
fn delete_confirm_removes_and_clamps_selection() {
    let mut app = app_with(&["a", "b"]);
    app.handle_key(Key::Down, 0);
    assert_eq!(app.selected_index, 1);
    app.handle_key(Key::Char('d'), 0);
    let action = app.handle_key(Key::Enter, 0);
    assert!(matches!(action, Action::StartRefresh));
    assert_eq!(app.accounts.len(), 1);
    assert_eq!(app.accounts[0].name, "a");
    assert_eq!(app.selected_index, 0);
    assert_eq!(app.quotas.len(), 0);
    assert_eq!(app.status_message, "Account 'b' deleted");
    assert!(app.storage.get_account(&String::from("b")).is_err());
}

#[test]
fn delete_failure_reports_and_keeps_state() {
    let mut app = app_with(&["a"]);
    app.storage.set_vault_available(false);
    app.handle_key(Key::Char('d'), 0);
    let action = app.handle_key(Key::Enter, 0);
    assert!(matches!(action, Action::Idle));
    assert_eq!(app.accounts.len(), 1);
    assert_eq!(app.status_message, "Failed to delete account: storage unavailable");
}

#[test]
fn refresh_pass_keeps_last_error_and_reports_clean_runs() {
    let mut app = app_with(&["a", "b"]);
    app.begin_refresh();
    assert_eq!(app.status_message, "Refreshing quota information...");
    app.record_fetch_error(0, "credential expired, please login again");
    app.record_fetch_error(1, "provider request failed");
    app.finish_refresh("12:00:00");
    // The last error wins and a failing pass keeps it on display.
    assert_eq!(app.status_message, "Error fetching b: provider request failed");
    // A clean pass reports the finish time.
    app.begin_refresh();
    let q = QuotaInfo {
        provider: String::from("copilot"),
        account_name: String::new(),
        usage: TokenUsage { tokens_used: None, requests_made: Some(1), cost_micros: None },
        limits: None,
        reset_date: None,
        last_updated: 3,
    };
    app.record_quota(0, q);
    app.finish_refresh("12:00:05");
    assert_eq!(app.status_message, "Last updated: 12:00:05");
    assert_eq!(app.quotas.len(), 1);
    assert_eq!(app.quotas[0].account_name, "a");
}

#[test]
fn refresh_due_respects_the_interval() {
    assert!(App::refresh_due(0, 60, 60));
    assert!(!App::refresh_due(0, 59, 60));
    assert!(App::refresh_due(100, 161, 60));
}

#[test]
fn frame_shows_exactly_one_dialog_outside_viewing() {
    let mut app = app_with(&["a"]);
    let m = app.frame_model();
    assert!(m.rename_dialog.is_none());
    assert!(m.provider_dialog.is_none());
    assert!(m.name_dialog.is_none());
    assert!(!m.delete_dialog);

    app.handle_key(Key::Char('r'), 0);
    let m = app.frame_model();
    assert_eq!(m.rename_dialog.as_deref(), Some("a"));
    assert!(m.provider_dialog.is_none() && m.name_dialog.is_none() && !m.delete_dialog);
    app.handle_key(Key::Esc, 0);

    app.handle_key(Key::Char('n'), 0);
    let m = app.frame_model();
    assert_eq!(m.provider_dialog, Some(0));
    assert!(m.rename_dialog.is_none() && m.name_dialog.is_none() && !m.delete_dialog);

    app.handle_key(Key::Enter, 77);
    let m = app.frame_model();
    let (label, text) = m.name_dialog.expect("name dialog");
    assert_eq!(label, "GitHub Copilot");
    assert_eq!(text, "copilot_77");
    app.handle_key(Key::Esc, 0);

    app.handle_key(Key::Char('d'), 0);
    let m = app.frame_model();
    assert!(m.delete_dialog);
    assert!(m.rename_dialog.is_none() && m.provider_dialog.is_none() && m.name_dialog.is_none());
}
