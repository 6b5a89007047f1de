use gmpass::app::{EntryField, PasswordChangeStep, SettingsItem};
use gmpass::display::{
    change_step_text, code_timer_color, code_timer_fill, editor_title, entry_depth, entry_detail, field_display_value,
    field_hint, folder_display_name, folder_entry_count, is_folder_collapsed, list_columns, password_mask,
    settings_hint, settings_scroll_offset, settings_value_display, spaced_code, stars, strength_color_from_label,
    tags_display, truncate_str,
};
use gmpass::handler::expand_home;
use gmpass::prompt::{after_unlock_attempt, check_confirmation, check_new_password, PromptStep, UnlockOutcome};
use gmpass::theme::{Color, Theme};
use gmpass::vault::{join_path, Entry, VaultError};

#[test]
fn truncation() {
    assert_eq!(truncate_str("hello", 0), "");
    assert_eq!(truncate_str("hello", 5), "hello");
    assert_eq!(truncate_str("hello world", 5), "hell~");
    assert_eq!(truncate_str("héllo", 2), "h~");
}

#[test]
fn hints() {
    assert_eq!(settings_hint(&SettingsItem::AutoLock), "  (</>)");
    assert_eq!(settings_hint(&SettingsItem::ExportJson), "  (Enter)");
    assert_eq!(settings_hint(&SettingsItem::AutoBackup), "  (Enter)");
}

#[test]
fn columns() {
    assert_eq!(list_columns(110), (30, 15, 55));
    assert_eq!(list_columns(5), (12, 0, 0));
    assert_eq!(list_columns(400), (45, 20, 325));
}

#[test]
fn details() {
    let mut e = Entry::new_password();
    assert_eq!(entry_detail(&e), "");
    e.url = "x.org".to_string();
    assert_eq!(entry_detail(&e), "x.org");
    e.username = "ann".to_string();
    assert_eq!(entry_detail(&e), "ann | x.org");
    let mut n = Entry::new_note();
    n.notes = "line one\nline two".to_string();
    assert_eq!(entry_detail(&n), "line one line two");
}

#[test]
fn tags_and_folders() {
    assert_eq!(tags_display(&vec!["work".to_string(), "dev".to_string()]), "#work #dev");
    assert_eq!(tags_display(&vec![]), "");
    assert_eq!(folder_display_name("Work/Mail"), "Mail");
    assert_eq!(folder_display_name("Work"), "Work");
}

#[test]
fn masks_and_codes() {
    assert_eq!(password_mask("abc").chars().count(), 8);
    assert_eq!(password_mask("abcdefghijklmnopqrstuvwxyz").chars().count(), 16);
    assert_eq!(password_mask("abcdefghij"), "●●●●●●●●●●");
    assert_eq!(spaced_code("123456"), "123 456");
    assert_eq!(code_timer_fill(30), 20);
    assert_eq!(code_timer_fill(15), 10);
    let t = Theme::dark();
    assert_eq!(code_timer_color(&t, 5), t.error);
    assert_eq!(code_timer_color(&t, 10), t.active);
    assert_eq!(code_timer_color(&t, 11), t.success);
    assert_eq!(strength_color_from_label("Good"), Color::LightGreen);
    assert_eq!(strength_color_from_label("Too short"), Color::Red);
    assert_eq!(strength_color_from_label(""), Color::DarkGray);
}

#[test]
fn home_expansion() {
    assert_eq!(expand_home("~/in.json", Some("/home/ann")), "/home/ann/in.json");
    assert_eq!(expand_home("~/in.json", None), "~/in.json");
    assert_eq!(expand_home("/tmp/in.json", Some("/home/ann")), "/tmp/in.json");
    assert_eq!(expand_home("~//abs.json", Some("/home/ann")), "/abs.json");
    assert_eq!(join_path("/home/ann/", "x"), "/home/ann/x");
}

#[test]
fn vault_error_messages() {
    assert_eq!(VaultError::TooSmall.message(), "Vault file is too small or corrupted");
    assert_eq!(VaultError::WrongPassword.message(), "Wrong master password or corrupted vault");
}

#[test]
fn list_titles() {
    let mut app = gmpass::app::App::new_locked(true, gmpass::config::Config::default(), 0);
    let mut e = Entry::new_password();
    e.name = "GitHub".to_string();
    e.folder = "Dev".to_string();
    let mut m = Entry::new_password();
    m.name = "Mail".to_string();
    app.finalize_unlock(gmpass::vault::Vault { entries: vec![e, m] }, "pw".to_string(), 0);
    assert_eq!(gmpass::display::list_title(&app), " Entries (2) [A-Z] 1/3 ");
    app.current_folder = "Dev".to_string();
    app.update_filter();
    assert_eq!(gmpass::display::list_title(&app), " /Dev (1) [A-Z] 1/1 ");
    app.current_folder = String::new();
    app.search_query = "mail".to_string();
    app.update_filter();
    assert_eq!(gmpass::display::list_title(&app), " Results (1/2) [A-Z] 1/1 ");
    app.search_query = "zzz".to_string();
    app.update_filter();
    assert_eq!(gmpass::display::list_title(&app), " Results (0/2) [A-Z] ");
}

#[test]
fn editor_texts() {
    let mut app = gmpass::app::App::new_locked(false, gmpass::config::Config::default(), 0);
    app.start_new_entry(gmpass::vault::EntryKind::Note);
    assert_eq!(editor_title(&app), " New Note ");
    app.edit_is_new = false;
    app.edit_buffer.kind = gmpass::vault::EntryKind::Password;
    assert_eq!(editor_title(&app), " Edit Password ");
    app.edit_buffer.password = "héllo".to_string();
    assert_eq!(field_display_value(&app, &EntryField::Password), "******");
    app.show_password = true;
    assert_eq!(field_display_value(&app, &EntryField::Password), "héllo");
    assert_eq!(field_hint(EntryField::Tags, true), " (comma separated: work, email, dev)");
    assert_eq!(field_hint(EntryField::Tags, false), "");
    assert_eq!(field_hint(EntryField::Name, true), "");
    assert_eq!(change_step_text(PasswordChangeStep::NewPassword), "Step 2/3: Enter new password (min 8 chars)");
    assert_eq!(stars(3), "***");
    assert_eq!(settings_scroll_offset(20, 10), 13);
    assert_eq!(settings_scroll_offset(5, 10), 0);
    assert_eq!(settings_scroll_offset(5, 0), 0);
}

#[test]
fn setting_values() {
    let mut app = gmpass::app::App::new_locked(false, gmpass::config::Config::default(), 0);
    assert_eq!(settings_value_display(&app, &SettingsItem::AutoLock), "5 min");
    assert_eq!(settings_value_display(&app, &SettingsItem::ClipboardClear), "30s");
    assert_eq!(settings_value_display(&app, &SettingsItem::AutoBackup), "[x] On");
    assert_eq!(settings_value_display(&app, &SettingsItem::ThemeSetting), "dark");
    assert_eq!(settings_value_display(&app, &SettingsItem::DefaultGenLength), "20 chars");
    assert_eq!(settings_value_display(&app, &SettingsItem::ChangePassword), "***");
    assert_eq!(settings_value_display(&app, &SettingsItem::ExportJson), "~/.gmp/export.json");
    assert_eq!(settings_value_display(&app, &SettingsItem::ImportJson), "Select file...");
    app.config.backup_enabled = false;
    assert_eq!(settings_value_display(&app, &SettingsItem::AutoBackup), "[ ] Off");
}

#[test]
fn depth_and_counts() {
    let mut a = Entry::new_password();
    a.folder = "Work/Mail/Old".to_string();
    let mut b = Entry::new_password();
    b.folder = "Work".to_string();
    let mut c = Entry::new_password();
    c.folder = "Workshop".to_string();
    let mut app = gmpass::app::App::new_locked(true, gmpass::config::Config::default(), 0);
    app.finalize_unlock(gmpass::vault::Vault { entries: vec![a.clone(), b.clone(), c.clone()] }, "pw".to_string(), 0);
    assert_eq!(folder_entry_count(&app.vault, "Work"), 2);
    assert_eq!(entry_depth(&app, &a), 3);
    app.current_folder = "Work".to_string();
    assert_eq!(entry_depth(&app, &a), 3);
    assert_eq!(entry_depth(&app, &b), 1);
    app.current_folder = "Work/Mail".to_string();
    assert_eq!(entry_depth(&app, &a), 2);
    app.search_query = "x".to_string();
    assert_eq!(entry_depth(&app, &a), 0);
    assert!(!is_folder_collapsed(&app, "Work"));
    app.collapsed_folders.push("Work".to_string());
    assert!(is_folder_collapsed(&app, "Work"));
}

#[test]
fn startup_prompts() {
    let step = after_unlock_attempt(0, UnlockOutcome::Refused);
    assert!(matches!(step, PromptStep::Retry(ref m) if m == "Wrong password. Try again (2/3)."));
    let step = after_unlock_attempt(1, UnlockOutcome::Empty);
    assert!(matches!(step, PromptStep::Retry(ref m) if m == "Password cannot be empty."));
    let step = after_unlock_attempt(2, UnlockOutcome::Refused);
    assert!(matches!(step, PromptStep::GiveUp(ref m) if m == "Too many failed attempts."));
    assert!(matches!(after_unlock_attempt(2, UnlockOutcome::Empty), PromptStep::OutOfAttempts));
    assert!(matches!(after_unlock_attempt(2, UnlockOutcome::Opened), PromptStep::Accept));
    assert_eq!(check_new_password("short").as_deref(), Some("Password must be at least 8 characters."));
    assert_eq!(check_new_password("long enough"), None);
    assert_eq!(check_confirmation("a", "b").as_deref(), Some("Passwords do not match. Try again."));
    assert_eq!(check_confirmation("a", "a"), None);
}

#[test]
fn dates_and_history() {
    assert_eq!(gmpass::display::date_text(1_700_000_000), "2023-11-14");
    assert_eq!(gmpass::display::date_time_text(1_700_000_000), "2023-11-14 22:13");
    assert_eq!(gmpass::display::date_text(i64::MAX), "");
    let history: Vec<gmpass::vault::PasswordHistoryItem> = (0..7)
        .map(|i| gmpass::vault::PasswordHistoryItem { password: format!("p{}", i), changed_at: i * 86400 })
        .collect();
    let shown = gmpass::display::recent_history(&history);
    assert_eq!(shown.len(), 5);
    assert_eq!(shown[0], ("1970-01-07".to_string(), "p6".to_string()));
    assert_eq!(shown[4], ("1970-01-03".to_string(), "p2".to_string()));
    assert!(gmpass::display::recent_history(&vec![]).is_empty());
}

fn texts(line: &[(String, gmpass::view::Tone)]) -> Vec<String> {
    line.iter().map(|p| p.0.clone()).collect()
}

fn view_app(show_password: bool) -> gmpass::app::App {
    let mut e = Entry::new_password();
    e.name = "Bank".to_string();
    e.username = "ann".to_string();
    e.password = "s3cret!".to_string();
    e.url = "bank.example".to_string();
    e.notes = "line one\r\nline two\n".to_string();
    e.modified_at = 1_700_000_000;
    e.password_history = vec![gmpass::vault::PasswordHistoryItem { password: "old-pw".to_string(), changed_at: 0 }];
    let mut app = gmpass::app::App::new_locked(true, gmpass::config::Config::default(), 0);
    app.finalize_unlock(gmpass::vault::Vault { entries: vec![e] }, "pw".to_string(), 0);
    app.show_password = show_password;
    app
}

#[test]
fn entry_view_masks_hidden_password() {
    let app = view_app(false);
    let lines = gmpass::view::view_lines(&app, 14, &None);
    let all: Vec<Vec<String>> = lines.iter().map(|l| texts(l)).collect();
    assert_eq!(all[0], Vec::<String>::new());
    assert_eq!(all[1], vec!["  ".to_string(), "[P] Bank".to_string()]);
    assert_eq!(all[2], vec!["  ──────────".to_string()]);
    assert_eq!(all[3], vec!["  User  ".to_string(), "ann".to_string()]);
    assert_eq!(all[4], vec!["  Pass  ".to_string(), "●●●●●●●●".to_string(), "  p to reveal".to_string()]);
    assert!(all.iter().flatten().all(|p| !p.contains("s3cret!")));
    assert!(all.iter().flatten().all(|p| !p.contains("old-pw")));
    assert_eq!(all[5], vec!["  URL   ".to_string(), "bank.example".to_string()]);
    assert_eq!(all[7], vec!["  History ".to_string(), "1 entries ".to_string(), "H to show".to_string()]);
    assert_eq!(all[9], vec!["  Notes".to_string()]);
    assert_eq!(all[10], vec!["  line one".to_string()]);
    assert_eq!(all[11], vec!["  line two".to_string()]);
    assert_eq!(all[13], vec!["  ".to_string(), "Modified 2023-11-14 22:13".to_string()]);
    assert_eq!(all.len(), 14);
    assert_eq!(gmpass::view::view_title(&app.vault.entries[0]), " [P] Detail ");
}

#[test]
fn entry_view_reveals_on_demand() {
    let mut app = view_app(true);
    app.show_history = true;
    app.vault.entries[0].totp_secret = "GEZDGNBV".to_string();
    let lines = gmpass::view::view_lines(&app, 14, &Some(("123456".to_string(), 15)));
    let all: Vec<Vec<String>> = lines.iter().map(|l| texts(l)).collect();
    assert_eq!(all[4], vec!["  Pass  ".to_string(), "s3cret!".to_string()]);
    let (_, label, bar) = gmpass::vault::password_strength_score("s3cret!");
    assert_eq!(all[5], vec!["        ".to_string(), format!("{} {}", bar, label)]);
    assert_eq!(label, "Too short");
    assert_eq!(all[8], vec!["  TOTP  ".to_string(), "123 456".to_string(), "  15s ".to_string(), format!("{}{}", "█".repeat(10), "░".repeat(10))]);
    assert_eq!(all[10], vec!["  History ".to_string(), "(1 entries)".to_string()]);
    assert_eq!(all[11], vec!["    1970-01-01 ".to_string(), "old-pw".to_string()]);
    let invalid = gmpass::view::view_lines(&app, 14, &None);
    assert_eq!(texts(&invalid[8]), vec!["  TOTP  ".to_string(), "Invalid secret".to_string()]);
}

#[test]
fn text_lines_like_std() {
    for s in ["", "a", "a\n", "a\r\nb", "a\r", "\n\n", "x\r\n", "a\rb\n"] {
        let ours = gmpass::view::lines_of(s);
        let std_lines: Vec<String> = s.lines().map(|l| l.to_string()).collect();
        assert_eq!(ours, std_lines, "{:?}", s);
    }
}

#[test]
fn list_rows_show_no_secrets() {
    let mut a = Entry::new_password();
    a.name = "Mail".to_string();
    a.folder = "Work".to_string();
    a.username = "ann".to_string();
    a.password = "hunter2".to_string();
    a.tags = vec!["x".to_string()];
    a.favorite = true;
    let mut app = gmpass::app::App::new_locked(true, gmpass::config::Config::default(), 0);
    app.finalize_unlock(gmpass::vault::Vault { entries: vec![a] }, "pw".to_string(), 0);
    let folder = gmpass::view::list_row_text(&app, 0, 110);
    assert_eq!(texts(&folder), vec!["  ".to_string(), "v [D] Work".to_string(), "  (1)".to_string()]);
    let row = gmpass::view::list_row_text(&app, 1, 110);
    let t = texts(&row);
    assert_eq!(t[0], "*");
    assert_eq!(t[1], "  [P] ");
    assert_eq!(t[2], format!("{:<30}", "Mail"));
    assert_eq!(t[3], format!("{:<55}", "ann"));
    assert_eq!(t[4], "#x");
    assert!(t.iter().all(|p| !p.contains("hunter2")));
}
