use gmpass::app::{App, InputMode, ListRow, PasswordChangeStep, Screen, SettingsItem, SortMode, Tab};
use gmpass::config::Config;
use gmpass::handler::{
    finish_copy_password, finish_copy_username, finish_export, finish_import, finish_import_save,
    finish_password_change, finish_quit, finish_save, handle_key, Effect, Key,
};
use gmpass::vault::{Entry, EntryKind, Vault};

fn entry(name: &str, folder: &str, password: &str) -> Entry {
    let mut e = Entry::new_password();
    e.name = name.to_string();
    e.folder = folder.to_string();
    e.password = password.to_string();
    e
}

fn open_app(entries: Vec<Entry>) -> App {
    let mut app = App::new_locked(true, Config::default(), 0);
    assert_eq!(app.screen, Screen::InitialUnlock);
    let vault = Vault { entries };
    app.finalize_unlock(vault, "master-pass".to_string(), 0);
    app
}

fn press(app: &mut App, key: Key, now: u64) -> Effect {
    assert!(gmpass::handler::accepts_key(app, key));
    handle_key(app, key, now)
}

fn type_text(app: &mut App, text: &str, now: u64) {
    for c in text.chars() {
        press(app, Key::Char(c), now);
    }
}

fn status(app: &App) -> String {
    app.status_message.as_ref().map(|m| m.0.clone()).unwrap_or_default()
}

#[test]
fn unlocked_app_lists_root() {
    let app = open_app(vec![entry("b", "", "x"), entry("a", "", "y")]);
    assert_eq!(app.screen, Screen::List);
    assert_eq!(app.list_rows.len(), 2);
    // sorted by name: "a" (position 1) first
    assert!(matches!(app.list_rows[0], ListRow::Entry(1)));
    assert!(matches!(app.list_rows[1], ListRow::Entry(0)));
}

#[test]
fn lock_then_master_password_unlocks() {
    let mut app = open_app(vec![entry("a", "", "x")]);
    app.lock();
    assert_eq!(app.screen, Screen::Locked);
    assert!(!app.show_password);
    type_text(&mut app, "master-pass", 1000);
    press(&mut app, Key::Enter, 2000);
    assert!(!app.locked);
    assert_eq!(app.screen, Screen::List);
    assert_eq!(app.lock_attempts, 0);
    assert_eq!(app.last_activity, 2000);
}

#[test]
fn third_wrong_password_quits() {
    let mut app = open_app(vec![]);
    app.lock();
    for attempt in 1..=3u8 {
        type_text(&mut app, "nope", 0);
        press(&mut app, Key::Enter, 0);
        assert_eq!(app.lock_attempts, attempt);
        assert!(app.lock_password_input.is_empty());
    }
    assert!(app.should_quit);
    assert_eq!(app.screen, Screen::Locked);
}

#[test]
fn wrong_password_message_counts_attempts() {
    let mut app = open_app(vec![]);
    app.lock();
    type_text(&mut app, "nope", 0);
    press(&mut app, Key::Enter, 0);
    assert_eq!(app.lock_error.as_deref(), Some("Wrong password (1/3 attempts)"));
    assert!(!app.should_quit);
}

#[test]
fn auto_lock_after_timeout() {
    let mut app = open_app(vec![]);
    app.check_auto_lock(299_999);
    assert!(!app.locked);
    app.check_auto_lock(300_000);
    assert!(app.locked);
    assert_eq!(app.screen, Screen::Locked);
}

#[test]
fn editor_fields_round_trip() {
    let mut app = open_app(vec![]);
    press(&mut app, Key::Char('n'), 0);
    assert_eq!(app.screen, Screen::EditEntry);
    assert_eq!(app.active_field, 0);
    press(&mut app, Key::Tab, 0);
    assert_eq!(app.active_field, 1);
    press(&mut app, Key::BackTab, 0);
    assert_eq!(app.active_field, 0);
    press(&mut app, Key::BackTab, 0);
    assert_eq!(app.active_field, app.current_fields().len() - 1);
}

#[test]
fn new_entry_saved_into_vault() {
    let mut app = open_app(vec![]);
    press(&mut app, Key::Char('n'), 0);
    press(&mut app, Key::Tab, 0); // name
    type_text(&mut app, "Mail", 0);
    press(&mut app, Key::Tab, 0); // username
    type_text(&mut app, "ann", 0);
    let e = press(&mut app, Key::F(5), 5);
    assert!(matches!(e, Effect::SaveVault));
    assert_eq!(app.vault.entries.len(), 1);
    assert_eq!(app.vault.entries[0].name, "Mail");
    assert_eq!(app.vault.entries[0].username, "ann");
    assert!(app.dirty);
    assert_eq!(app.screen, Screen::List);
    assert_eq!(status(&app), "Entry saved");
    finish_save(&mut app, Err("disk full".to_string()), 6);
    assert_eq!(status(&app), "Save error: disk full");
}

#[test]
fn too_deep_folder_is_refused() {
    let mut app = open_app(vec![]);
    press(&mut app, Key::Char('n'), 0);
    type_text(&mut app, "a/b/c/d", 0);
    let e = press(&mut app, Key::F(5), 0);
    assert!(matches!(e, Effect::Nothing));
    assert!(app.vault.entries.is_empty());
    assert_eq!(status(&app), "Folder depth limited to 3 levels");
    assert_eq!(app.screen, Screen::EditEntry);
}

#[test]
fn password_history_keeps_last_ten() {
    let mut app = open_app(vec![entry("site", "", "p0")]);
    for round in 1..=12 {
        press(&mut app, Key::Char('e'), 0);
        let pw = format!("p{}", round);
        *app.get_field_value_mut(&gmpass::app::EntryField::Password) = pw.clone();
        press(&mut app, Key::F(5), 0);
        assert_eq!(app.vault.entries[0].password, pw);
    }
    let history = &app.vault.entries[0].password_history;
    assert_eq!(history.len(), 10);
    assert_eq!(history[9].password, "p11");
    assert_eq!(history[0].password, "p2");
}

#[test]
fn collapse_toggle_twice_restores() {
    let mut app = open_app(vec![entry("a", "Work", "x"), entry("b", "", "y")]);
    assert!(matches!(app.list_rows[0], ListRow::Folder(_)));
    assert_eq!(app.list_rows.len(), 3);
    press(&mut app, Key::Enter, 0);
    assert_eq!(app.collapsed_folders, vec!["Work".to_string()]);
    assert_eq!(app.list_rows.len(), 2);
    press(&mut app, Key::Enter, 0);
    assert!(app.collapsed_folders.is_empty());
    assert_eq!(app.list_rows.len(), 3);
}

#[test]
fn folder_navigation_round_trip() {
    let mut app = open_app(vec![entry("a", "Work/Mail", "x")]);
    press(&mut app, Key::Right, 0);
    assert_eq!(app.current_folder, "Work");
    press(&mut app, Key::Right, 0);
    assert_eq!(app.current_folder, "Work/Mail");
    press(&mut app, Key::Left, 0);
    assert_eq!(app.current_folder, "Work");
    press(&mut app, Key::Backspace, 0);
    assert_eq!(app.current_folder, "");
}

#[test]
fn opening_an_entry_hides_password() {
    let mut app = open_app(vec![entry("a", "", "secret")]);
    app.show_password = true;
    press(&mut app, Key::Enter, 0);
    assert_eq!(app.screen, Screen::ViewEntry);
    assert!(!app.show_password);
    press(&mut app, Key::Char('p'), 0);
    assert!(app.show_password);
    press(&mut app, Key::Esc, 0);
    assert_eq!(app.screen, Screen::List);
}

#[test]
fn favorite_marks_vault_unsaved() {
    let mut app = open_app(vec![entry("a", "", "x")]);
    assert!(!app.dirty);
    press(&mut app, Key::Char('f'), 7);
    assert!(app.vault.entries[0].favorite);
    assert!(app.dirty);
    assert_eq!(status(&app), "Added to favorites");
    press(&mut app, Key::Char('f'), 7);
    assert!(!app.vault.entries[0].favorite);
    assert_eq!(status(&app), "Removed from favorites");
}

#[test]
fn quit_with_changes_saves_first() {
    let mut app = open_app(vec![entry("a", "", "x")]);
    press(&mut app, Key::Char('D'), 0);
    assert_eq!(app.vault.entries.len(), 2);
    assert_eq!(app.vault.entries[1].name, "a (copy)");
    let e = press(&mut app, Key::Char('q'), 0);
    assert!(matches!(e, Effect::SaveVaultThenQuit));
    assert!(!app.should_quit);
    finish_quit(&mut app, Err("no space".to_string()), 0);
    assert!(!app.should_quit);
    assert_eq!(status(&app), "Save error: no space");
    finish_quit(&mut app, Ok(()), 0);
    assert!(app.should_quit);
}

#[test]
fn quit_without_changes_quits() {
    let mut app = open_app(vec![]);
    let e = press(&mut app, Key::Char('q'), 0);
    assert!(matches!(e, Effect::Nothing));
    assert!(app.should_quit);
}

#[test]
fn delete_asks_and_saves() {
    let mut app = open_app(vec![entry("a", "", "x"), entry("b", "", "y")]);
    press(&mut app, Key::Char('d'), 0);
    assert_eq!(app.screen, Screen::ConfirmDelete);
    let e = press(&mut app, Key::Char('y'), 0);
    assert!(matches!(e, Effect::SaveVault));
    assert_eq!(app.vault.entries.len(), 1);
    assert_eq!(app.vault.entries[0].name, "b");
    assert_eq!(status(&app), "Entry deleted");
    assert_eq!(app.screen, Screen::List);
}

#[test]
fn search_filters_and_opens_single_match() {
    let mut app = open_app(vec![entry("GitHub", "Dev", "x"), entry("Mail", "", "y")]);
    press(&mut app, Key::Char('/'), 0);
    assert_eq!(app.input_mode, InputMode::Search);
    type_text(&mut app, "git", 0);
    assert_eq!(app.filtered_indices, vec![0]);
    press(&mut app, Key::Enter, 0);
    assert_eq!(app.screen, Screen::ViewEntry);
    assert_eq!(app.selected_entry().unwrap().name, "GitHub");
}

#[test]
fn search_escape_restores_list() {
    let mut app = open_app(vec![entry("GitHub", "", "x"), entry("Mail", "", "y")]);
    press(&mut app, Key::Char('s'), 0);
    type_text(&mut app, "zzz", 0);
    assert!(app.list_rows.is_empty());
    press(&mut app, Key::Esc, 0);
    assert_eq!(app.input_mode, InputMode::Normal);
    assert!(app.search_query.is_empty());
    assert_eq!(app.list_rows.len(), 2);
}

#[test]
fn list_selection_wraps() {
    let mut app = open_app(vec![entry("a", "", "x"), entry("b", "", "y")]);
    press(&mut app, Key::Up, 0);
    assert_eq!(app.selected, 1);
    press(&mut app, Key::Char('j'), 0);
    assert_eq!(app.selected, 0);
}

#[test]
fn sort_cycle_reports() {
    let mut app = open_app(vec![]);
    press(&mut app, Key::Char('o'), 0);
    assert_eq!(app.sort_mode, SortMode::DateCreated);
    assert_eq!(status(&app), "Sort: Created");
    press(&mut app, Key::Char('o'), 0);
    press(&mut app, Key::Char('o'), 0);
    assert_eq!(app.sort_mode, SortMode::Name);
}

#[test]
fn copy_password_effect_and_message() {
    let mut app = open_app(vec![entry("a", "", "s3cret")]);
    let e = press(&mut app, Key::Char('c'), 1000);
    match e {
        Effect::CopyPassword(p) => assert_eq!(p, "s3cret"),
        _ => panic!("expected a copy"),
    }
    finish_copy_password(&mut app, Ok(()), 1000);
    assert_eq!(status(&app), "Password copied (auto-clear in 30s)");
    assert_eq!(app.clipboard_clear_at, Some(31_000));
    assert!(!app.check_clipboard_clear(30_999));
    assert!(app.check_clipboard_clear(31_000));
    assert_eq!(status(&app), "Clipboard auto-cleared");
    finish_copy_password(&mut app, Err("Clipboard unavailable: none".to_string()), 0);
    assert_eq!(status(&app), "Clipboard unavailable: none");
}

#[test]
fn copy_username_message() {
    let mut e = entry("a", "", "x");
    e.username = "ann".to_string();
    let mut app = open_app(vec![e]);
    match press(&mut app, Key::Char('u'), 0) {
        Effect::CopyUsername(u) => assert_eq!(u, "ann"),
        _ => panic!("expected a copy"),
    }
    finish_copy_username(&mut app, Ok(()), 0);
    assert_eq!(status(&app), "Username copied to clipboard");
}

#[test]
fn status_expires_after_three_seconds() {
    let mut app = open_app(vec![]);
    app.set_status("hello".to_string(), 1000);
    app.clear_expired_status(3999);
    assert_eq!(status(&app), "hello");
    app.clear_expired_status(4000);
    assert!(app.status_message.is_none());
}

#[test]
fn tab_keys_switch_screens() {
    let mut app = open_app(vec![]);
    press(&mut app, Key::F(2), 0);
    assert_eq!(app.screen, Screen::Settings);
    assert_eq!(app.active_tab, Tab::Settings);
    press(&mut app, Key::Tab, 0);
    assert_eq!(app.screen, Screen::List);
    assert_eq!(app.active_tab, Tab::Vault);
}

#[test]
fn settings_adjustments_report() {
    let mut app = open_app(vec![]);
    press(&mut app, Key::F(2), 0);
    let e = press(&mut app, Key::Right, 0);
    assert!(matches!(e, Effect::SaveConfig));
    assert_eq!(app.config.auto_lock_seconds, 600);
    assert_eq!(status(&app), "Auto-lock: 10 min");
    press(&mut app, Key::Down, 0);
    press(&mut app, Key::Left, 0);
    assert_eq!(app.config.clipboard_clear_seconds, 15);
    assert_eq!(status(&app), "Clipboard clear: 15s");
    press(&mut app, Key::Down, 0);
    press(&mut app, Key::Enter, 0);
    assert!(!app.config.backup_enabled);
    assert_eq!(status(&app), "Auto-backup: Off");
    press(&mut app, Key::Down, 0);
    press(&mut app, Key::Right, 0);
    assert_eq!(app.config.theme, "light");
    assert_eq!(app.theme, gmpass::theme::Theme::light());
    assert_eq!(status(&app), "Theme: light");
    press(&mut app, Key::Down, 0);
    press(&mut app, Key::Left, 0);
    assert_eq!(app.config.default_gen_length, 19);
    assert_eq!(status(&app), "Default password length: 19");
    press(&mut app, Key::Up, 0);
    assert_eq!(app.settings_selected, 3);
}

#[test]
fn settings_menu_wraps_and_exports() {
    let mut app = open_app(vec![]);
    press(&mut app, Key::F(2), 0);
    press(&mut app, Key::Up, 0);
    assert_eq!(app.settings_selected, 7);
    press(&mut app, Key::Up, 0);
    assert_eq!(gmpass::app::settings_items()[app.settings_selected], SettingsItem::ExportJson);
    let e = press(&mut app, Key::Enter, 0);
    assert!(matches!(e, Effect::ExportVault));
    finish_export(&mut app, Ok("/home/ann/.gmp/export.json".to_string()), 0);
    assert_eq!(status(&app), "Exported to /home/ann/.gmp/export.json");
    finish_export(&mut app, Err("denied".to_string()), 0);
    assert_eq!(status(&app), "Export failed: denied");
}

#[test]
fn master_password_change_flow() {
    let mut app = open_app(vec![]);
    press(&mut app, Key::F(2), 0);
    for _ in 0..5 {
        press(&mut app, Key::Down, 0);
    }
    press(&mut app, Key::Enter, 0);
    assert_eq!(app.screen, Screen::ChangePassword);
    type_text(&mut app, "wrong", 0);
    press(&mut app, Key::Enter, 0);
    assert_eq!(app.pw_change_error.as_deref(), Some("Wrong current password"));
    assert!(app.pw_change_current.is_empty());
    type_text(&mut app, "master-pass", 0);
    assert!(app.pw_change_error.is_none());
    press(&mut app, Key::Enter, 0);
    assert_eq!(app.pw_change_step, PasswordChangeStep::NewPassword);
    type_text(&mut app, "short", 0);
    press(&mut app, Key::Enter, 0);
    assert_eq!(app.pw_change_error.as_deref(), Some("New password must be at least 8 characters"));
    type_text(&mut app, "-enough", 0);
    press(&mut app, Key::Enter, 0);
    assert_eq!(app.pw_change_step, PasswordChangeStep::ConfirmPassword);
    type_text(&mut app, "other", 0);
    press(&mut app, Key::Enter, 0);
    assert_eq!(app.pw_change_error.as_deref(), Some("Passwords do not match"));
    type_text(&mut app, "short-enough", 0);
    let e = press(&mut app, Key::Enter, 0);
    match e {
        Effect::ChangeMasterPassword(p) => assert_eq!(p, "short-enough"),
        _ => panic!("expected a password change"),
    }
    finish_password_change(&mut app, Err("io".to_string()), 0);
    assert_eq!(app.pw_change_error.as_deref(), Some("Failed: io"));
    finish_password_change(&mut app, Ok(()), 0);
    assert_eq!(app.master_password, "short-enough");
    assert_eq!(app.screen, Screen::Settings);
    assert_eq!(status(&app), "Master password changed successfully");
}

#[test]
fn import_flow() {
    let mut app = open_app(vec![entry("old", "", "x")]);
    press(&mut app, Key::F(2), 0);
    press(&mut app, Key::Up, 0);
    press(&mut app, Key::Enter, 0);
    assert_eq!(app.screen, Screen::ImportPath);
    press(&mut app, Key::Enter, 0);
    assert_eq!(status(&app), "No path entered");
    assert_eq!(app.screen, Screen::Settings);
    press(&mut app, Key::Enter, 0);
    type_text(&mut app, "  /tmp/in.json ", 0);
    match press(&mut app, Key::Enter, 0) {
        Effect::ImportFrom(p) => assert_eq!(p, "/tmp/in.json"),
        _ => panic!("expected an import"),
    }
    let e = finish_import(&mut app, Ok(vec![entry("n1", "", "a"), entry("n2", "", "b")]), 0);
    assert!(matches!(e, Effect::SaveImported(2)));
    assert!(app.dirty);
    assert_eq!(app.vault.entries.len(), 3);
    finish_import_save(&mut app, 2, Ok(()), 0);
    assert_eq!(status(&app), "Imported 2 entries");
    assert_eq!(app.screen, Screen::Settings);
    assert_eq!(app.list_rows.len(), 3);
    let e = finish_import(&mut app, Err("Invalid JSON format: x".to_string()), 0);
    assert!(matches!(e, Effect::Nothing));
    assert_eq!(status(&app), "Import error: Invalid JSON format: x");
}

#[test]
fn generator_preview_and_accept() {
    let mut app = open_app(vec![]);
    press(&mut app, Key::Char('n'), 0);
    press(&mut app, Key::F(6), 0);
    assert_eq!(app.screen, Screen::GeneratePassword);
    assert_eq!(app.gen_preview.chars().count(), 20);
    press(&mut app, Key::Left, 0);
    assert_eq!(app.gen_preview.chars().count(), 19);
    press(&mut app, Key::Char('1'), 0);
    press(&mut app, Key::Char('3'), 0);
    press(&mut app, Key::Char('4'), 0);
    assert!(app.gen_preview.chars().all(|c| c.is_ascii_lowercase()));
    let preview = app.gen_preview.clone();
    press(&mut app, Key::Enter, 0);
    assert_eq!(app.edit_buffer.password, preview);
    assert_eq!(app.screen, Screen::EditEntry);
    assert_eq!(status(&app), "Password generated");
}

#[test]
fn note_editor_has_no_generator() {
    let mut app = open_app(vec![]);
    press(&mut app, Key::Char('N'), 0);
    assert_eq!(app.edit_buffer.kind, EntryKind::Note);
    press(&mut app, Key::F(6), 0);
    assert_eq!(app.screen, Screen::EditEntry);
}

#[test]
fn stats_add_up() {
    let mut note = Entry::new_note();
    note.name = "n".to_string();
    let mut weak = entry("w", "F", "abcdefgh");
    weak.favorite = true;
    let app = open_app(vec![weak, entry("s", "F", "abcdefgh"), note]);
    let s = app.compute_stats_at(app.vault.entries[0].created_at);
    assert_eq!(s.total, 3);
    assert_eq!(s.passwords + s.notes, s.total);
    assert_eq!(s.notes, 1);
    assert_eq!(s.favorites, 1);
    assert_eq!(s.folders, 1);
    assert_eq!(s.weak_passwords, 2);
    assert_eq!(s.duplicate_passwords, 2);
}

#[test]
fn keys_accepted_at_counter_limits() {
    let mut app = open_app(vec![]);
    app.lock();
    app.lock_attempts = u8::MAX;
    assert!(gmpass::handler::accepts_key(&app, Key::Char('x')));
    assert!(!gmpass::handler::accepts_key(&app, Key::Enter));
    app.lock_password_input = "master-pass".to_string();
    press(&mut app, Key::Enter, 0);
    assert!(!app.locked);
    assert_eq!(app.lock_attempts, 0);

    press(&mut app, Key::F(2), 0);
    app.config.default_gen_length = usize::MAX;
    assert!(gmpass::handler::accepts_key(&app, Key::Right));
    for _ in 0..4 {
        press(&mut app, Key::Down, 0);
    }
    assert!(!gmpass::handler::accepts_key(&app, Key::Right));
    assert!(!gmpass::handler::accepts_key(&app, Key::Enter));
    press(&mut app, Key::Left, 0);
    assert_eq!(app.config.default_gen_length, usize::MAX - 1);
    assert!(app.rows_are_valid());
}

#[test]
fn ctrl_s_saves_and_ctrl_g_generates_in_editor() {
    let mut app = open_app(vec![]);
    press(&mut app, Key::Char('n'), 0);
    press(&mut app, Key::Tab, 0);
    type_text(&mut app, "Bank", 0);
    press(&mut app, Key::Ctrl('g'), 0);
    assert_eq!(app.screen, Screen::GeneratePassword);
    assert_eq!(app.gen_preview.chars().count(), 20);
    press(&mut app, Key::Enter, 0);
    assert_eq!(app.screen, Screen::EditEntry);
    let e = press(&mut app, Key::Ctrl('s'), 0);
    assert!(matches!(e, Effect::SaveVault));
    assert_eq!(app.screen, Screen::List);
    assert_eq!(app.vault.entries.len(), 1);
    assert_eq!(app.vault.entries[0].name, "Bank");
    assert_eq!(app.vault.entries[0].password.chars().count(), 20);
}

#[test]
fn ctrl_chords_elsewhere_count_as_characters() {
    let mut app = open_app(vec![entry("a", "", "x")]);
    // in the list, Ctrl+S counts as `s` and starts a search
    press(&mut app, Key::Ctrl('s'), 0);
    assert_eq!(app.input_mode, InputMode::Search);
    press(&mut app, Key::Esc, 0);
    // in the editor, other Ctrl chords type their character
    press(&mut app, Key::Char('n'), 0);
    press(&mut app, Key::Ctrl('x'), 0);
    assert_eq!(app.edit_buffer.folder, "x");
    assert_eq!(app.screen, Screen::EditEntry);
}

#[test]
fn password_change_dialog_keeps_its_checks() {
    let mut app = open_app(vec![]);
    app.start_password_change();
    type_text(&mut app, "master-pass", 0);
    press(&mut app, Key::Enter, 0);
    assert_eq!(app.pw_change_step, PasswordChangeStep::NewPassword);
    assert_eq!(app.pw_change_current, app.master_password);
    type_text(&mut app, "newpass1", 0);
    press(&mut app, Key::Enter, 0);
    assert_eq!(app.pw_change_step, PasswordChangeStep::ConfirmPassword);
    type_text(&mut app, "newpass1", 0);
    let e = press(&mut app, Key::Enter, 0);
    assert_eq!(app.master_password, "master-pass");
    assert!(matches!(e, Effect::ChangeMasterPassword(ref p) if p == "newpass1"));
    finish_password_change(&mut app, Ok(()), 0);
    assert_eq!(app.master_password, "newpass1");
    assert_eq!(app.screen, Screen::Settings);
}
