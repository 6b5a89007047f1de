//! What a key press does. Each key is decided here; when it calls for
//! outside work (saving, the clipboard, reading an import file), the
//! decision returns an [`Effect`], the caller performs it, and hands the
//! outcome back to the matching `finish_` function.
use vstd::prelude::*;
use crate::app::{active_field_of, char_deleted, char_typed, collapse_toggled, edit_started, elapsed_secs, entry_started, field_advanced, field_retreated, fields_of, folder_entered, folder_left, selected_index, self_selected, sort_cycled, tab_switched, unlock_tried, App, EntryField, InputMode, ListRow, Screen, Tab, STATUS_SECONDS};
use crate::editing::{edit_saved, favorite_toggled, selected_deleted, selected_duplicated};
use crate::generator::charset;
use crate::listing::{law_rebuilt_rows_valid, list_rebuilt, rows_valid};
use crate::text::string_pop;
use crate::text::string_push;
use crate::vault::EntryKind;
use crate::app::{import_started, password_change_started, settings_items, settings_menu, SettingsItem, SETTINGS_COUNT};
use crate::config::{auto_lock_labels, auto_lock_values, clipboard_clear_labels, clipboard_clear_values, cycle_step, option_label, position_of, Config, AUTO_LOCK_COUNT, CLIPBOARD_CLEAR_COUNT, MAX_GEN_LENGTH, MIN_GEN_LENGTH};
use crate::text::{chars_of, concat, copy_string, decimal, decimal_string, owned, skip_chars, starts_with, starts_with_chars, str_eq, string_from_chars, trim_chars, trim_ws};
use crate::vault::{join_path, path_join};
use crate::app::{clipboard_scheduled, PasswordChangeStep, MILLIS_PER_SECOND};
use crate::theme::{theme_named, theme_options, THEME_COUNT};

verus! {

/// A key press, as the interface reads it.
#[derive(Clone, Copy, Debug, PartialEq, Eq, Structural)]
pub enum Key {
    Char(char),
    Enter,
    Esc,
    Tab,
    BackTab,
    Backspace,
    Up,
    Down,
    Left,
    Right,
    /// A function key, by number.
    F(u8),
    /// A character typed with Ctrl held.
    Ctrl(char),
    /// Any other key.
    Other,
}

/// Outside work a key press calls for.
#[derive(Clone, Debug)]
pub enum Effect {
    /// Nothing to do.
    Nothing,
    /// Save the vault (with a backup when the settings say so), then report
    /// the outcome with `finish_save`.
    SaveVault,
    /// Save the vault, then quit when that succeeded: `finish_quit`.
    SaveVaultThenQuit,
    /// Copy a password to the clipboard, then `finish_copy_password`.
    CopyPassword(String),
    /// Copy a username to the clipboard, then `finish_copy_username`.
    CopyUsername(String),
    /// Write the settings file; the outcome is not reported.
    SaveConfig,
    /// Export the vault as JSON, then `finish_export`.
    ExportVault,
    /// Save the vault under a new master password, then `finish_password_change`.
    ChangeMasterPassword(String),
    /// Read entries from a JSON file at the path (after `~/` expansion),
    /// then `finish_import`.
    ImportFrom(String),
    /// Save the vault after importing that many entries, then `finish_import_save`.
    SaveImported(usize),
}

/// The state after a key press is noted at time `now`: the activity clock
/// moves to `now` and an expired status message goes.
pub open spec fn touched(pre: App, now: u64) -> App {
    let t = App { last_activity: now, ..pre };
    if t.status_message matches Some(m) && elapsed_secs(m.1, now) >= STATUS_SECONDS {
        App { status_message: None, ..t }
    } else {
        t
    }
}

/// The vault and the entry list are as they were.
pub open spec fn lists_kept(pre: App, post: App) -> bool {
    &&& post.vault == pre.vault
    &&& post.list_rows == pre.list_rows
    &&& post.filtered_indices == pre.filtered_indices
}

/// The text with its last character removed (unchanged when empty).
pub open spec fn popped(s: Seq<char>) -> Seq<char> {
    if s.len() == 0 {
        s
    } else {
        s.drop_last()
    }
}

/// The selection one row down, wrapping to the top.
pub open spec fn row_below(selected: usize, n: nat) -> usize {
    if n == 0 {
        selected
    } else {
        ((selected + 1) % (n as int)) as usize
    }
}

/// The selection one row up, wrapping to the bottom.
pub open spec fn row_above(selected: usize, n: nat) -> usize {
    if n == 0 {
        selected
    } else {
        ((selected + n - 1) % (n as int)) as usize
    }
}

/// The selected entry opened for viewing, password and history hidden.
pub open spec fn entry_viewed(a: App) -> App {
    App { show_password: false, show_history: false, screen: Screen::ViewEntry, ..a }
}

/// The clipboard copy of the selected entry's password, if an entry is selected.
pub open spec fn copy_password_effect(a: App, e: Effect) -> bool {
    match self_selected(a) {
        Some(v) => e matches Effect::CopyPassword(s) && s@ == v.password,
        None => e is Nothing,
    }
}

/// The clipboard copy of the selected entry's username, if an entry is selected.
pub open spec fn copy_username_effect(a: App, e: Effect) -> bool {
    match self_selected(a) {
        Some(v) => e matches Effect::CopyUsername(s) && s@ == v.username,
        None => e is Nothing,
    }
}

/// The keys the interface can take in a state without running past the
/// limits of its counters: an unlock attempt needs room to count one more
/// failure, moving through a list or the editor's fields needs its
/// position to stay representable, and the settings menu needs its
/// selection on one of its items.
pub open spec fn key_accepted(a: App, key: Key) -> bool {
    counters_allow(a, pressed_as(a, key))
}

/// How a key counts in a state: in the entry editor Ctrl+S and Ctrl+G are
/// commands (save, generate); everywhere else a Ctrl chord counts as its
/// character.
pub open spec fn pressed_as(a: App, key: Key) -> Key {
    match key {
        Key::Ctrl(c) => if a.screen == Screen::EditEntry && (c == 's' || c == 'g') {
            key
        } else {
            Key::Char(c)
        },
        _ => key,
    }
}

/// How a key counts in the present state (see [`pressed_as`]).
pub fn pressed(app: &App, key: Key) -> (r: Key)
    ensures
        r == pressed_as(*app, key),
{
    match key {
        Key::Ctrl(c) => if app.screen == Screen::EditEntry && (c == 's' || c == 'g') {
            key
        } else {
            Key::Char(c)
        },
        _ => key,
    }
}

/// The limits of the counters for a key as it counts (see [`key_accepted`]).
pub open spec fn counters_allow(a: App, key: Key) -> bool {
    &&& a.screen == Screen::Locked && key == Key::Enter && a.lock_password_input@ != a.master_password@
        ==> a.lock_attempts < u8::MAX
    &&& a.screen == Screen::List && a.list_rows@.len() > 0 ==> {
        &&& (key == Key::Down || (a.input_mode == InputMode::Normal && key == Key::Char('j')))
            ==> a.selected < usize::MAX
        &&& (key == Key::Up || (a.input_mode == InputMode::Normal && key == Key::Char('k')))
            ==> a.selected + a.list_rows@.len() <= usize::MAX
    }
    &&& a.screen == Screen::EditEntry ==> {
        &&& (key == Key::Tab || (key == Key::Enter && active_field_of(a) != EntryField::Notes)) ==> a.active_field
            < usize::MAX
        &&& key == Key::BackTab ==> a.active_field + fields_of(a.edit_buffer.kind).len() <= usize::MAX
    }
    &&& a.screen == Screen::Settings ==> {
        &&& (key == Key::Down || key == Key::Char('j')) ==> a.settings_selected < usize::MAX
        &&& (key == Key::Up || key == Key::Char('k')) ==> a.settings_selected + 8 <= usize::MAX
        &&& (key == Key::Left || key == Key::Right || key == Key::Enter) ==> a.settings_selected < 8
        &&& (key == Key::Right || key == Key::Enter) && a.settings_selected < 8 && settings_menu()[a.settings_selected as int]
            == SettingsItem::DefaultGenLength ==> a.config.default_gen_length < usize::MAX
    }
}

/// A key on the lock screen: Enter tries the typed password, Backspace and
/// characters edit it, Esc quits.
pub open spec fn locked_key(a: App, post: App, key: Key, now: u64) -> bool {
    match key {
        Key::Enter => unlock_tried(a, post, now, a.lock_password_input@ == a.master_password@),
        Key::Backspace => post == (App { lock_password_input: post.lock_password_input, ..a })
            && post.lock_password_input@ == popped(a.lock_password_input@),
        Key::Char(c) => post == (App { lock_password_input: post.lock_password_input, ..a })
            && post.lock_password_input@ == a.lock_password_input@.push(c),
        Key::Esc => post == (App { should_quit: true, ..a }),
        _ => post == a,
    }
}

/// A key on the statistics screen: Esc, `q`, `i` or Enter go back to the list.
pub open spec fn stats_key(a: App, post: App, key: Key) -> bool {
    match key {
        Key::Esc | Key::Enter | Key::Char('q') | Key::Char('i') => post == (App { screen: Screen::List, ..a }),
        _ => post == a,
    }
}

/// A key on the entry view.
pub open spec fn view_key(a: App, post: App, key: Key, now: u64, e: Effect) -> bool {
    match key {
        Key::Esc | Key::Char('q') => post == (App { screen: Screen::List, ..a }) && e is Nothing,
        Key::Char('c') | Key::Char('1') => post == a && copy_password_effect(a, e),
        Key::Char('u') | Key::Char('2') => post == a && copy_username_effect(a, e),
        Key::Char('p') => post == (App { show_password: !a.show_password, ..a }) && e is Nothing,
        Key::Char('e') => edit_started(App { show_password: true, ..a }, post) && e is Nothing,
        Key::Char('f') => favorite_toggled(a, post, now) && e is Nothing,
        Key::Char('H') => post == (App { show_history: !a.show_history, ..a }) && e is Nothing,
        _ => post == a && e is Nothing,
    }
}

/// A key on the delete confirmation: `y` deletes the selected entry (and
/// asks for the vault to be saved when it changed), `n` or Esc go back.
pub open spec fn delete_key(a: App, post: App, key: Key, now: u64, e: Effect) -> bool {
    match key {
        Key::Char('y') | Key::Char('Y') => selected_deleted(a, post, now) && (if post.dirty {
            e is SaveVault
        } else {
            e is Nothing
        }),
        Key::Char('n') | Key::Char('N') | Key::Esc => post == (App { screen: Screen::List, ..a }) && e is Nothing,
        _ => post == a && e is Nothing,
    }
}

fn handle_locked(app: &mut App, key: Key, now: u64)
    requires
        key_accepted(*old(app), key),
        old(app).screen == Screen::Locked,
    ensures
        locked_key(*old(app), *final(app), key, now),
        lists_kept(*old(app), *final(app)),
{
    match key {
        Key::Enter => {
            let _ = app.try_unlock(now);
        },
        Key::Backspace => {
            let _ = string_pop(&mut app.lock_password_input);
        },
        Key::Char(c) => {
            string_push(&mut app.lock_password_input, c);
        },
        Key::Esc => {
            app.should_quit = true;
        },
        _ => {},
    }
}

fn handle_stats(app: &mut App, key: Key)
    ensures
        stats_key(*old(app), *final(app), key),
        lists_kept(*old(app), *final(app)),
{
    match key {
        Key::Esc | Key::Enter | Key::Char('q') | Key::Char('i') => {
            app.screen = Screen::List;
        },
        _ => {},
    }
}

/// The clipboard copy of the selected entry's password, if any.
fn copy_password(app: &App) -> (e: Effect)
    ensures
        copy_password_effect(*app, e),
{
    match app.selected_entry() {
        Some(entry) => Effect::CopyPassword(entry.password.clone()),
        None => Effect::Nothing,
    }
}

/// The clipboard copy of the selected entry's username, if any.
fn copy_username(app: &App) -> (e: Effect)
    ensures
        copy_username_effect(*app, e),
{
    match app.selected_entry() {
        Some(entry) => Effect::CopyUsername(entry.username.clone()),
        None => Effect::Nothing,
    }
}

/// Shows the password and opens the editor on the selected entry.
fn open_editor(app: &mut App)
    requires
        rows_valid(*old(app)),
    ensures
        edit_started(App { show_password: true, ..*old(app) }, *final(app)),
        rows_valid(*final(app)),
{
    app.show_password = true;
    app.start_edit_entry();
}

fn toggle_favorite_kept_valid(app: &mut App, now: u64)
    requires
        rows_valid(*old(app)),
    ensures
        favorite_toggled(*old(app), *final(app), now),
        rows_valid(*final(app)),
{
    app.toggle_favorite(now);
    proof {
        if selected_index(*old(app)) is Some {
            law_rebuilt_rows_valid(
                App { vault: app.vault, dirty: true, ..*old(app) },
                App { status_message: old(app).status_message, ..*app },
            );
        }
    }
}

#[verifier::rlimit(100)]
#[verifier::spinoff_prover]
fn handle_view(app: &mut App, key: Key, now: u64) -> (e: Effect)
    requires
        rows_valid(*old(app)),
    ensures
        view_key(*old(app), *final(app), key, now, e),
        rows_valid(*final(app)),
{
    match key {
        Key::Esc | Key::Char('q') => {
            app.screen = Screen::List;
            Effect::Nothing
        },
        Key::Char('c') | Key::Char('1') => copy_password(app),
        Key::Char('u') | Key::Char('2') => copy_username(app),
        Key::Char('p') => {
            app.show_password = !app.show_password;
            Effect::Nothing
        },
        Key::Char('e') => {
            open_editor(app);
            Effect::Nothing
        },
        Key::Char('f') => {
            toggle_favorite_kept_valid(app, now);
            Effect::Nothing
        },
        Key::Char('H') => {
            app.show_history = !app.show_history;
            Effect::Nothing
        },
        _ => Effect::Nothing,
    }
}

#[verifier::rlimit(100)]
#[verifier::spinoff_prover]
fn handle_confirm_delete(app: &mut App, key: Key, now: u64) -> (e: Effect)
    requires
        rows_valid(*old(app)),
    ensures
        delete_key(*old(app), *final(app), key, now, e),
        rows_valid(*final(app)),
{
    match key {
        Key::Char('y') | Key::Char('Y') => {
            app.delete_selected(now);
            proof {
                if selected_index(*old(app)) is Some {
                    law_rebuilt_rows_valid(
                        App { vault: app.vault, dirty: true, ..*old(app) },
                        App {
                            status_message: old(app).status_message,
                            screen: old(app).screen,
                            input_mode: old(app).input_mode,
                            ..*app
                        },
                    );
                }
            }
            if app.dirty {
                Effect::SaveVault
            } else {
                Effect::Nothing
            }
        },
        Key::Char('n') | Key::Char('N') | Key::Esc => {
            app.screen = Screen::List;
            Effect::Nothing
        },
        _ => Effect::Nothing,
    }
}

} // verus!

verus! {

/// Whether the selected row is a folder heading.
pub open spec fn on_folder(a: App) -> bool {
    a.selected < a.list_rows@.len() && a.list_rows@[a.selected as int] is Folder
}

/// Enter on the list: a folder heading collapses or expands, an entry opens.
pub open spec fn list_enter(a: App, post: App) -> bool {
    if on_folder(a) {
        collapse_toggled(a, post)
    } else if self_selected(a) is Some {
        post == entry_viewed(a)
    } else {
        post == a
    }
}

/// Right on the list: a folder heading opens as the current folder, an entry opens.
pub open spec fn list_right(a: App, post: App) -> bool {
    if on_folder(a) {
        folder_entered(a, post)
    } else if self_selected(a) is Some {
        post == entry_viewed(a)
    } else {
        post == a
    }
}

/// A key on the list while not searching.
pub open spec fn list_normal_key(a: App, post: App, key: Key, now: u64, e: Effect) -> bool {
    match key {
        Key::Tab => tab_switched(a, post) && e is Nothing,
        Key::Char('q') => if a.dirty {
            post == a && e is SaveVaultThenQuit
        } else {
            post == (App { should_quit: true, ..a }) && e is Nothing
        },
        Key::Char('j') | Key::Down => post == (App { selected: row_below(a.selected, a.list_rows@.len()), ..a })
            && e is Nothing,
        Key::Char('k') | Key::Up => post == (App { selected: row_above(a.selected, a.list_rows@.len()), ..a })
            && e is Nothing,
        Key::Char('/') | Key::Char('s') => post == (App {
            input_mode: InputMode::Search,
            search_query: post.search_query,
            ..a
        }) && post.search_query@ == Seq::<char>::empty() && e is Nothing,
        Key::Enter => list_enter(a, post) && e is Nothing,
        Key::Right | Key::Char('l') => list_right(a, post) && e is Nothing,
        Key::Left | Key::Char('h') | Key::Backspace => folder_left(a, post) && e is Nothing,
        Key::Char('n') => entry_started(a, post, EntryKind::Password) && e is Nothing,
        Key::Char('N') => entry_started(a, post, EntryKind::Note) && e is Nothing,
        Key::Char('e') => (if self_selected(a) is Some {
            edit_started(App { show_password: true, ..a }, post)
        } else {
            post == a
        }) && e is Nothing,
        Key::Char('d') => (if self_selected(a) is Some {
            post == (App { screen: Screen::ConfirmDelete, ..a })
        } else {
            post == a
        }) && e is Nothing,
        Key::Char('c') | Key::Char('1') => post == a && copy_password_effect(a, e),
        Key::Char('u') | Key::Char('2') => post == a && copy_username_effect(a, e),
        Key::Char('f') => favorite_toggled(a, post, now) && e is Nothing,
        Key::Char('D') => selected_duplicated(a, post, now) && e is Nothing,
        Key::Char('o') => sort_cycled(a, post, now) && e is Nothing,
        Key::Char('i') => post == (App { screen: Screen::Stats, ..a }) && e is Nothing,
        _ => post == a && e is Nothing,
    }
}

/// The first entry row of a list from position `i` on, or 0 when there is none.
pub open spec fn entry_row_from(rows: Seq<ListRow>, i: int) -> int
    decreases rows.len() - i,
{
    if i < 0 || i >= rows.len() {
        0
    } else if rows[i] is Entry {
        i
    } else {
        entry_row_from(rows, i + 1)
    }
}

/// Enter while searching: searching ends, and when exactly one entry
/// matches, the first entry row is selected and opened.
pub open spec fn search_enter(a: App, post: App) -> bool {
    if a.filtered_indices@.len() == 1 {
        post == entry_viewed(
            App { input_mode: InputMode::Normal, selected: entry_row_from(a.list_rows@, 0) as usize, ..a },
        )
    } else {
        post == (App { input_mode: InputMode::Normal, ..a })
    }
}

/// A key on the list while searching.
pub open spec fn list_search_key(a: App, post: App, key: Key) -> bool {
    match key {
        Key::Esc => list_rebuilt(
            App { search_query: post.search_query, input_mode: InputMode::Normal, ..a },
            post,
        ) && post.search_query@ == Seq::<char>::empty(),
        Key::Enter => search_enter(a, post),
        Key::Backspace => list_rebuilt(App { search_query: post.search_query, ..a }, post)
            && post.search_query@ == popped(a.search_query@),
        Key::Char(c) => list_rebuilt(App { search_query: post.search_query, ..a }, post)
            && post.search_query@ == a.search_query@.push(c),
        Key::Down => post == (App { selected: row_below(a.selected, a.list_rows@.len()), ..a }),
        Key::Up => post == (App { selected: row_above(a.selected, a.list_rows@.len()), ..a }),
        _ => post == a,
    }
}

/// A key on the list screen, by input mode.
pub open spec fn list_key(a: App, post: App, key: Key, now: u64, e: Effect) -> bool {
    match a.input_mode {
        InputMode::Normal => list_normal_key(a, post, key, now, e),
        InputMode::Search => list_search_key(a, post, key) && e is Nothing,
        _ => post == a && e is Nothing,
    }
}

fn select_below(app: &mut App)
    requires
        old(app).list_rows@.len() > 0 ==> old(app).selected < usize::MAX,
    ensures
        *final(app) == (App { selected: row_below(old(app).selected, old(app).list_rows@.len()), ..*old(app) }),
{
    if app.list_rows.len() > 0 {
        app.selected = (app.selected + 1) % app.list_rows.len();
    }
}

fn select_above(app: &mut App)
    requires
        old(app).list_rows@.len() > 0 ==> old(app).selected + old(app).list_rows@.len() <= usize::MAX,
    ensures
        *final(app) == (App { selected: row_above(old(app).selected, old(app).list_rows@.len()), ..*old(app) }),
{
    if app.list_rows.len() > 0 {
        app.selected = (app.selected + app.list_rows.len() - 1) % app.list_rows.len();
    }
}

fn view_selected(app: &mut App)
    ensures
        *final(app) == entry_viewed(*old(app)),
{
    app.show_password = false;
    app.show_history = false;
    app.screen = Screen::ViewEntry;
}

fn list_enter_key(app: &mut App)
    requires
        rows_valid(*old(app)),
    ensures
        list_enter(*old(app), *final(app)),
        rows_valid(*final(app)),
{
    if app.selected_is_folder() {
        app.toggle_folder_collapse();
        proof {
            law_rebuilt_rows_valid(App { collapsed_folders: app.collapsed_folders, ..*old(app) }, *app);
        }
    } else if app.selected_entry().is_some() {
        view_selected(app);
    }
}

fn list_right_key(app: &mut App)
    requires
        rows_valid(*old(app)),
    ensures
        list_right(*old(app), *final(app)),
        rows_valid(*final(app)),
{
    if app.selected_is_folder() {
        app.navigate_into_folder();
        proof {
            law_rebuilt_rows_valid(App { current_folder: app.current_folder, selected: 0, ..*old(app) }, *app);
        }
    } else if app.selected_entry().is_some() {
        view_selected(app);
    }
}

fn folder_up_kept_valid(app: &mut App)
    requires
        rows_valid(*old(app)),
    ensures
        folder_left(*old(app), *final(app)),
        rows_valid(*final(app)),
{
    app.navigate_up_folder();
    proof {
        if old(app).current_folder@.len() > 0 {
            law_rebuilt_rows_valid(App { current_folder: app.current_folder, selected: 0, ..*old(app) }, *app);
        }
    }
}

fn duplicate_kept_valid(app: &mut App, now: u64)
    requires
        rows_valid(*old(app)),
    ensures
        selected_duplicated(*old(app), *final(app), now),
        rows_valid(*final(app)),
{
    app.duplicate_selected(now);
    proof {
        if self_selected(*old(app)) is Some {
            law_rebuilt_rows_valid(
                App { vault: app.vault, dirty: true, ..*old(app) },
                App { status_message: old(app).status_message, ..*app },
            );
        }
    }
}

fn sort_kept_valid(app: &mut App, now: u64)
    requires
        rows_valid(*old(app)),
    ensures
        sort_cycled(*old(app), *final(app), now),
        rows_valid(*final(app)),
{
    app.cycle_sort(now);
    proof {
        law_rebuilt_rows_valid(
            App { sort_mode: crate::app::sort_mode_next(old(app).sort_mode), ..*old(app) },
            App { status_message: old(app).status_message, ..*app },
        );
    }
}

fn list_edit_key(app: &mut App)
    requires
        rows_valid(*old(app)),
    ensures
        if self_selected(*old(app)) is Some {
            edit_started(App { show_password: true, ..*old(app) }, *final(app))
        } else {
            *final(app) == *old(app)
        },
        rows_valid(*final(app)),
{
    if app.selected_entry().is_some() {
        open_editor(app);
    }
}

fn list_delete_key(app: &mut App)
    requires
        rows_valid(*old(app)),
    ensures
        if self_selected(*old(app)) is Some {
            *final(app) == (App { screen: Screen::ConfirmDelete, ..*old(app) })
        } else {
            *final(app) == *old(app)
        },
        rows_valid(*final(app)),
{
    if app.selected_entry().is_some() {
        app.screen = Screen::ConfirmDelete;
    }
}

fn start_search(app: &mut App)
    ensures
        *final(app) == (App { input_mode: InputMode::Search, search_query: final(app).search_query, ..*old(app) }),
        final(app).search_query@ == Seq::<char>::empty(),
{
    app.input_mode = InputMode::Search;
    app.search_query = String::new();
}

fn quit_key(app: &mut App) -> (e: Effect)
    ensures
        if old(app).dirty {
            *final(app) == *old(app) && e is SaveVaultThenQuit
        } else {
            *final(app) == (App { should_quit: true, ..*old(app) }) && e is Nothing
        },
{
    if app.dirty {
        Effect::SaveVaultThenQuit
    } else {
        app.should_quit = true;
        Effect::Nothing
    }
}

fn new_entry_key(app: &mut App, kind: EntryKind)
    requires
        rows_valid(*old(app)),
    ensures
        entry_started(*old(app), *final(app), kind),
        rows_valid(*final(app)),
{
    app.start_new_entry(kind);
}

fn tab_key(app: &mut App)
    requires
        rows_valid(*old(app)),
    ensures
        tab_switched(*old(app), *final(app)),
        rows_valid(*final(app)),
{
    app.switch_tab();
}

#[verifier::rlimit(100)]
#[verifier::spinoff_prover]
fn handle_list_normal(app: &mut App, key: Key, now: u64) -> (e: Effect)
    requires
        rows_valid(*old(app)),
        key_accepted(*old(app), key),
        old(app).screen == Screen::List,
        old(app).input_mode == InputMode::Normal,
    ensures
        list_normal_key(*old(app), *final(app), key, now, e),
        rows_valid(*final(app)),
{
    match key {
        Key::Tab => {
            tab_key(app);
            Effect::Nothing
        },
        Key::Char('q') => quit_key(app),
        Key::Char('j') | Key::Down => {
            select_below(app);
            Effect::Nothing
        },
        Key::Char('k') | Key::Up => {
            select_above(app);
            Effect::Nothing
        },
        Key::Char('/') | Key::Char('s') => {
            start_search(app);
            Effect::Nothing
        },
        Key::Enter => {
            list_enter_key(app);
            Effect::Nothing
        },
        Key::Right | Key::Char('l') => {
            list_right_key(app);
            Effect::Nothing
        },
        Key::Left | Key::Char('h') | Key::Backspace => {
            folder_up_kept_valid(app);
            Effect::Nothing
        },
        Key::Char('n') => {
            new_entry_key(app, EntryKind::Password);
            Effect::Nothing
        },
        Key::Char('N') => {
            new_entry_key(app, EntryKind::Note);
            Effect::Nothing
        },
        Key::Char('e') => {
            list_edit_key(app);
            Effect::Nothing
        },
        Key::Char('d') => {
            list_delete_key(app);
            Effect::Nothing
        },
        Key::Char('c') | Key::Char('1') => copy_password(app),
        Key::Char('u') | Key::Char('2') => copy_username(app),
        Key::Char('f') => {
            toggle_favorite_kept_valid(app, now);
            Effect::Nothing
        },
        Key::Char('D') => {
            duplicate_kept_valid(app, now);
            Effect::Nothing
        },
        Key::Char('o') => {
            sort_kept_valid(app, now);
            Effect::Nothing
        },
        Key::Char('i') => {
            app.screen = Screen::Stats;
            Effect::Nothing
        },
        _ => Effect::Nothing,
    }
}

} // verus!

verus! {

/// The first entry row of the list, or 0 when there is none.
fn first_entry_row(rows: &Vec<ListRow>) -> (r: usize)
    ensures
        r == entry_row_from(rows@, 0),
{
    let mut i: usize = 0;
    while i < rows.len()
        invariant
            i <= rows@.len(),
            entry_row_from(rows@, 0) == entry_row_from(rows@, i as int),
        decreases rows@.len() - i,
    {
        match &rows[i] {
            ListRow::Entry(_) => {
                return i;
            },
            ListRow::Folder(_) => {},
        }
        i = i + 1;
    }
    0
}

fn search_enter_key(app: &mut App)
    requires
        rows_valid(*old(app)),
    ensures
        search_enter(*old(app), *final(app)),
        rows_valid(*final(app)),
{
    app.input_mode = InputMode::Normal;
    if app.filtered_indices.len() == 1 {
        app.selected = first_entry_row(&app.list_rows);
        view_selected(app);
    }
}

fn search_edit_key(app: &mut App, key: Key)
    requires
        rows_valid(*old(app)),
        key is Esc || key is Backspace || key is Char,
    ensures
        list_search_key(*old(app), *final(app), key),
        rows_valid(*final(app)),
{
    match key {
        Key::Esc => {
            app.search_query = String::new();
            app.input_mode = InputMode::Normal;
        },
        Key::Backspace => {
            let _ = string_pop(&mut app.search_query);
        },
        Key::Char(c) => {
            string_push(&mut app.search_query, c);
        },
        _ => {},
    }
    let ghost mid = *app;
    app.update_filter();
    proof {
        law_rebuilt_rows_valid(mid, *app);
    }
}

#[verifier::rlimit(60)]
fn handle_list_search(app: &mut App, key: Key)
    requires
        rows_valid(*old(app)),
        key_accepted(*old(app), key),
        old(app).screen == Screen::List,
    ensures
        list_search_key(*old(app), *final(app), key),
        rows_valid(*final(app)),
{
    match key {
        Key::Esc | Key::Backspace | Key::Char(_) => search_edit_key(app, key),
        Key::Enter => search_enter_key(app),
        Key::Down => select_below(app),
        Key::Up => select_above(app),
        _ => {},
    }
}

fn handle_list(app: &mut App, key: Key, now: u64) -> (e: Effect)
    requires
        rows_valid(*old(app)),
        key_accepted(*old(app), key),
        old(app).screen == Screen::List,
    ensures
        list_key(*old(app), *final(app), key, now, e),
        rows_valid(*final(app)),
{
    match app.input_mode {
        InputMode::Normal => handle_list_normal(app, key, now),
        InputMode::Search => {
            handle_list_search(app, key);
            Effect::Nothing
        },
        _ => Effect::Nothing,
    }
}

} // verus!

verus! {

/// A password the generator may produce for the settings of `a`:
/// `gen_length` characters from the chosen classes.
pub open spec fn generated_for(a: App, s: Seq<char>) -> bool {
    &&& s.len() == a.gen_length
    &&& forall|i: int| 0 <= i < s.len() ==> charset(a.gen_lowercase, a.gen_uppercase, a.gen_digits, a.gen_symbols).contains(#[trigger] s[i])
}

/// A new generator preview made for the settings of `a`.
pub open spec fn preview_made(a: App, post: App) -> bool {
    post == (App { gen_preview: post.gen_preview, ..a }) && generated_for(a, post.gen_preview@)
}

/// A key in the entry editor: F5 or Ctrl+S saves (and asks for the vault
/// to be written when it changed), F6 or Ctrl+G opens the generator for a
/// password entry,
/// Esc leaves, Tab and Shift-Tab move between fields, Enter moves on (or
/// starts a new line in the notes), and other keys edit the field.
pub open spec fn edit_key(a: App, post: App, key: Key, now: u64, e: Effect) -> bool {
    match key {
        Key::F(5) | Key::Ctrl('s') => edit_saved(a, post, now) && (if post.dirty {
            e is SaveVault
        } else {
            e is Nothing
        }),
        Key::F(6) | Key::Ctrl('g') => (if a.edit_buffer.kind == EntryKind::Password {
            preview_made(App { screen: Screen::GeneratePassword, ..a }, post)
        } else {
            post == a
        }) && e is Nothing,
        Key::Esc => post == (App { screen: Screen::List, input_mode: InputMode::Normal, ..a }) && e is Nothing,
        Key::Tab => field_advanced(a, post) && e is Nothing,
        Key::BackTab => field_retreated(a, post) && e is Nothing,
        Key::Backspace => char_deleted(a, post) && e is Nothing,
        Key::Enter => (if active_field_of(a) == EntryField::Notes {
            char_typed(a, post, '\n')
        } else {
            field_advanced(a, post)
        }) && e is Nothing,
        Key::Char(c) => char_typed(a, post, c) && e is Nothing,
        _ => post == a && e is Nothing,
    }
}

/// A key in the password generator: Enter takes the preview as the
/// entry's password, Esc goes back to the editor, `r` makes a new preview,
/// `1`-`4` switch a character class, Left and Right change the length
/// (within 4 to 128), each followed by a new preview.
pub open spec fn generate_key(a: App, post: App, key: Key, now: u64) -> bool {
    match key {
        Key::Esc => post == (App { screen: Screen::EditEntry, ..a }),
        Key::Enter => post == (App {
            edit_buffer: crate::vault::Entry { password: a.gen_preview, ..a.edit_buffer },
            screen: Screen::EditEntry,
            status_message: post.status_message,
            ..a
        }) && (post.status_message matches Some(m) && m.0@ == "Password generated"@ && m.1 == now),
        Key::Char('r') => preview_made(a, post),
        Key::Char('1') => preview_made(App { gen_uppercase: !a.gen_uppercase, ..a }, post),
        Key::Char('2') => preview_made(App { gen_lowercase: !a.gen_lowercase, ..a }, post),
        Key::Char('3') => preview_made(App { gen_digits: !a.gen_digits, ..a }, post),
        Key::Char('4') => preview_made(App { gen_symbols: !a.gen_symbols, ..a }, post),
        Key::Left => if a.gen_length > 4 {
            preview_made(App { gen_length: (a.gen_length - 1) as usize, ..a }, post)
        } else {
            post == a
        },
        Key::Right => if a.gen_length < 128 {
            preview_made(App { gen_length: (a.gen_length + 1) as usize, ..a }, post)
        } else {
            post == a
        },
        _ => post == a,
    }
}

fn new_preview(app: &mut App)
    ensures
        preview_made(*old(app), *final(app)),
{
    app.gen_preview = app.generate_password();
}

/// A saved edit leaves the list naming only entries of the vault.
proof fn lemma_saved_rows_valid(pre: App, post: App, now: u64)
    requires
        rows_valid(pre),
        edit_saved(pre, post, now),
    ensures
        rows_valid(post),
{
    if crate::editing::folder_depth(pre.edit_buffer.folder@) <= crate::editing::MAX_FOLDER_DEPTH {
        law_rebuilt_rows_valid(
            App {
                vault: post.vault,
                edit_buffer: post.edit_buffer,
                dirty: true,
                screen: Screen::List,
                input_mode: InputMode::Normal,
                ..pre
            },
            App { status_message: pre.status_message, ..post },
        );
    }
}

fn save_edit_key(app: &mut App, now: u64) -> (e: Effect)
    requires
        rows_valid(*old(app)),
    ensures
        edit_saved(*old(app), *final(app), now),
        if final(app).dirty {
            e is SaveVault
        } else {
            e is Nothing
        },
        rows_valid(*final(app)),
{
    app.save_edit(now);
    proof {
        lemma_saved_rows_valid(*old(app), *app, now);
    }
    if app.dirty {
        Effect::SaveVault
    } else {
        Effect::Nothing
    }
}

fn open_generator(app: &mut App)
    ensures
        if old(app).edit_buffer.kind == EntryKind::Password {
            preview_made(App { screen: Screen::GeneratePassword, ..*old(app) }, *final(app))
        } else {
            *final(app) == *old(app)
        },
{
    match app.edit_buffer.kind {
        EntryKind::Password => {
            app.screen = Screen::GeneratePassword;
            new_preview(app);
        },
        EntryKind::Note => {},
    }
}

fn edit_enter_key(app: &mut App)
    requires
        active_field_of(*old(app)) != EntryField::Notes ==> old(app).active_field < usize::MAX,
    ensures
        if active_field_of(*old(app)) == EntryField::Notes {
            char_typed(*old(app), *final(app), '\n')
        } else {
            field_advanced(*old(app), *final(app))
        },
{
    match app.current_field() {
        EntryField::Notes => app.field_push_char('\n'),
        _ => app.next_field(),
    }
}

#[verifier::rlimit(100)]
#[verifier::spinoff_prover]
fn handle_edit(app: &mut App, key: Key, now: u64) -> (e: Effect)
    requires
        rows_valid(*old(app)),
        key_accepted(*old(app), key),
        old(app).screen == Screen::EditEntry,
    ensures
        edit_key(*old(app), *final(app), key, now, e),
        rows_valid(*final(app)),
{
    match key {
        Key::F(5) | Key::Ctrl('s') => save_edit_key(app, now),
        Key::F(6) | Key::Ctrl('g') => {
            open_generator(app);
            Effect::Nothing
        },
        Key::Esc => {
            app.screen = Screen::List;
            app.input_mode = InputMode::Normal;
            Effect::Nothing
        },
        Key::Tab => {
            app.next_field();
            Effect::Nothing
        },
        Key::BackTab => {
            app.prev_field();
            Effect::Nothing
        },
        Key::Backspace => {
            app.field_pop_char();
            Effect::Nothing
        },
        Key::Enter => {
            edit_enter_key(app);
            Effect::Nothing
        },
        Key::Char(c) => {
            app.field_push_char(c);
            Effect::Nothing
        },
        _ => Effect::Nothing,
    }
}

fn take_preview(app: &mut App, now: u64)
    ensures
        generate_key(*old(app), *final(app), Key::Enter, now),
{
    app.edit_buffer.password = app.gen_preview.clone();
    app.screen = Screen::EditEntry;
    app.set_status(crate::text::owned("Password generated"), now);
}

fn shorter_preview(app: &mut App)
    ensures
        generate_key(*old(app), *final(app), Key::Left, 0),
{
    if app.gen_length > 4 {
        app.gen_length = app.gen_length - 1;
        new_preview(app);
    }
}

fn longer_preview(app: &mut App)
    ensures
        generate_key(*old(app), *final(app), Key::Right, 0),
{
    if app.gen_length < 128 {
        app.gen_length = app.gen_length + 1;
        new_preview(app);
    }
}

#[verifier::rlimit(100)]
#[verifier::spinoff_prover]
fn handle_generate_password(app: &mut App, key: Key, now: u64)
    ensures
        generate_key(*old(app), *final(app), key, now),
        lists_kept(*old(app), *final(app)),
{
    match key {
        Key::Esc => {
            app.screen = Screen::EditEntry;
        },
        Key::Enter => take_preview(app, now),
        Key::Char('r') => new_preview(app),
        Key::Char('1') => {
            app.gen_uppercase = !app.gen_uppercase;
            new_preview(app);
        },
        Key::Char('2') => {
            app.gen_lowercase = !app.gen_lowercase;
            new_preview(app);
        },
        Key::Char('3') => {
            app.gen_digits = !app.gen_digits;
            new_preview(app);
        },
        Key::Char('4') => {
            app.gen_symbols = !app.gen_symbols;
            new_preview(app);
        },
        Key::Left => shorter_preview(app),
        Key::Right => longer_preview(app),
        _ => {},
    }
}

} // verus!

verus! {

/// The auto-lock timeout one step on from `v` (see [`Config::cycle_auto_lock`]).
pub open spec fn next_auto_lock(v: u64, forward: bool) -> u64 {
    auto_lock_values()[cycle_step(position_of(auto_lock_values(), v), AUTO_LOCK_COUNT as int, forward)]
}

/// The clipboard clearing delay one step on from `v`.
pub open spec fn next_clipboard_clear(v: u64, forward: bool) -> u64 {
    clipboard_clear_values()[cycle_step(position_of(clipboard_clear_values(), v), CLIPBOARD_CLEAR_COUNT as int, forward)]
}

/// The theme name after `t`.
pub open spec fn next_theme(t: Seq<char>) -> Seq<char> {
    theme_options()[cycle_step(position_of(theme_options(), t), THEME_COUNT as int, true)]
}

/// The default generated-password length one step up or down, within 4 to 128.
pub open spec fn adjusted_length(n: usize, forward: bool) -> int {
    if forward {
        if n + 1 < MAX_GEN_LENGTH {
            n + 1
        } else {
            MAX_GEN_LENGTH as int
        }
    } else {
        if n > 0 && n - 1 > MIN_GEN_LENGTH {
            n - 1
        } else {
            MIN_GEN_LENGTH as int
        }
    }
}

/// A setting changed and reported with `msg` at time `now`; only the
/// settings, the theme and the status line differ.
pub open spec fn setting_changed(a: App, post: App, now: u64, msg: Seq<char>) -> bool {
    &&& post == (App { config: post.config, theme: post.theme, status_message: post.status_message, ..a })
    &&& post.status_message matches Some(m) && m.0@ == msg && m.1 == now
}

/// Left or Right (`forward`) on the selected settings item: the item's
/// value steps, the settings are to be saved, and the status reports the
/// new value. Items without a value do nothing.
pub open spec fn setting_adjusted(a: App, post: App, forward: bool, now: u64, e: Effect) -> bool {
    match settings_menu()[a.settings_selected as int] {
        SettingsItem::AutoLock => {
            &&& post.config == (Config { auto_lock_seconds: next_auto_lock(a.config.auto_lock_seconds, forward), ..a.config })
            &&& post.theme == a.theme
            &&& setting_changed(a, post, now, "Auto-lock: "@ + option_label(auto_lock_values(), auto_lock_labels(), post.config.auto_lock_seconds))
            &&& e is SaveConfig
        },
        SettingsItem::ClipboardClear => {
            &&& post.config == (Config {
                clipboard_clear_seconds: next_clipboard_clear(a.config.clipboard_clear_seconds, forward),
                ..a.config
            })
            &&& post.theme == a.theme
            &&& setting_changed(
                a,
                post,
                now,
                "Clipboard clear: "@ + option_label(clipboard_clear_values(), clipboard_clear_labels(), post.config.clipboard_clear_seconds),
            )
            &&& e is SaveConfig
        },
        SettingsItem::AutoBackup => {
            &&& post.config == (Config { backup_enabled: !a.config.backup_enabled, ..a.config })
            &&& post.theme == a.theme
            &&& setting_changed(a, post, now, "Auto-backup: "@ + (if post.config.backup_enabled { "On"@ } else { "Off"@ }))
            &&& e is SaveConfig
        },
        SettingsItem::ThemeSetting => {
            &&& post.config == (Config { theme: post.config.theme, ..a.config })
            &&& post.config.theme@ == next_theme(a.config.theme@)
            &&& post.theme == theme_named(post.config.theme@)
            &&& setting_changed(a, post, now, "Theme: "@ + post.config.theme@)
            &&& e is SaveConfig
        },
        SettingsItem::DefaultGenLength => {
            &&& post.config == (Config { default_gen_length: adjusted_length(a.config.default_gen_length, forward) as usize, ..a.config })
            &&& post.theme == a.theme
            &&& setting_changed(a, post, now, "Default password length: "@ + decimal(post.config.default_gen_length as nat))
            &&& e is SaveConfig
        },
        _ => post == a && e is Nothing,
    }
}

/// Enter on the selected settings item: a value steps forward (the backup
/// switch flips), the password change or the import prompt opens, or the
/// vault is to be exported.
pub open spec fn setting_chosen(a: App, post: App, now: u64, e: Effect) -> bool {
    match settings_menu()[a.settings_selected as int] {
        SettingsItem::ChangePassword => password_change_started(a, post) && e is Nothing,
        SettingsItem::ExportJson => post == a && e is ExportVault,
        SettingsItem::ImportJson => import_started(a, post) && e is Nothing,
        _ => setting_adjusted(a, post, true, now, e),
    }
}

/// A key on the settings screen.
pub open spec fn settings_key(a: App, post: App, key: Key, now: u64, e: Effect) -> bool {
    match key {
        Key::Tab | Key::Esc => tab_switched(a, post) && e is Nothing,
        Key::Char('q') => post == (App { should_quit: true, ..a }) && e is Nothing,
        Key::Down | Key::Char('j') => post == (App {
            settings_selected: ((a.settings_selected + 1) % (SETTINGS_COUNT as int)) as usize,
            ..a
        }) && e is Nothing,
        Key::Up | Key::Char('k') => post == (App {
            settings_selected: ((a.settings_selected + SETTINGS_COUNT - 1) % (SETTINGS_COUNT as int)) as usize,
            ..a
        }) && e is Nothing,
        Key::Left => setting_adjusted(a, post, false, now, e),
        Key::Right => setting_adjusted(a, post, true, now, e),
        Key::Enter => setting_chosen(a, post, now, e),
        _ => post == a && e is Nothing,
    }
}

fn report(app: &mut App, head: &str, value: &str, now: u64)
    ensures
        *final(app) == (App { status_message: final(app).status_message, ..*old(app) }),
        final(app).status_message matches Some(m) && m.0@ == head@ + value@ && m.1 == now,
{
    let msg = concat(head, value);
    app.set_status(msg, now);
}

fn adjust_auto_lock(app: &mut App, forward: bool, now: u64) -> (e: Effect)
    requires
        old(app).settings_selected < SETTINGS_COUNT,
        settings_menu()[old(app).settings_selected as int] == SettingsItem::AutoLock,
    ensures
        setting_adjusted(*old(app), *final(app), forward, now, e),
{
    app.config.cycle_auto_lock(forward);
    let label = app.config.auto_lock_label();
    report(app, "Auto-lock: ", label, now);
    Effect::SaveConfig
}

fn adjust_clipboard_clear(app: &mut App, forward: bool, now: u64) -> (e: Effect)
    requires
        old(app).settings_selected < SETTINGS_COUNT,
        settings_menu()[old(app).settings_selected as int] == SettingsItem::ClipboardClear,
    ensures
        setting_adjusted(*old(app), *final(app), forward, now, e),
{
    app.config.cycle_clipboard_clear(forward);
    let label = app.config.clipboard_clear_label();
    report(app, "Clipboard clear: ", label, now);
    Effect::SaveConfig
}

fn flip_backup(app: &mut App, forward: bool, now: u64) -> (e: Effect)
    requires
        old(app).settings_selected < SETTINGS_COUNT,
        settings_menu()[old(app).settings_selected as int] == SettingsItem::AutoBackup,
    ensures
        setting_adjusted(*old(app), *final(app), forward, now, e),
{
    app.config.backup_enabled = !app.config.backup_enabled;
    let value = if app.config.backup_enabled { "On" } else { "Off" };
    proof {
        reveal_strlit("On");
        reveal_strlit("Off");
    }
    report(app, "Auto-backup: ", value, now);
    Effect::SaveConfig
}

fn step_theme(app: &mut App, forward: bool, now: u64) -> (e: Effect)
    requires
        old(app).settings_selected < SETTINGS_COUNT,
        settings_menu()[old(app).settings_selected as int] == SettingsItem::ThemeSetting,
    ensures
        setting_adjusted(*old(app), *final(app), forward, now, e),
{
    app.config.cycle_theme();
    app.reload_theme();
    let name = copy_string(&app.config.theme);
    report(app, "Theme: ", name.as_str(), now);
    Effect::SaveConfig
}

fn adjust_length(app: &mut App, forward: bool, now: u64) -> (e: Effect)
    requires
        old(app).settings_selected < SETTINGS_COUNT,
        settings_menu()[old(app).settings_selected as int] == SettingsItem::DefaultGenLength,
        forward ==> old(app).config.default_gen_length < usize::MAX,
    ensures
        setting_adjusted(*old(app), *final(app), forward, now, e),
{
    app.config.adjust_gen_length(forward);
    let n = decimal_string(app.config.default_gen_length as u64);
    report(app, "Default password length: ", n.as_str(), now);
    Effect::SaveConfig
}

fn adjust_setting(app: &mut App, forward: bool, now: u64) -> (e: Effect)
    requires
        old(app).settings_selected < SETTINGS_COUNT,
        forward && settings_menu()[old(app).settings_selected as int] == SettingsItem::DefaultGenLength
            ==> old(app).config.default_gen_length < usize::MAX,
    ensures
        setting_adjusted(*old(app), *final(app), forward, now, e),
{
    let items = settings_items();
    match items[app.settings_selected] {
        SettingsItem::AutoLock => adjust_auto_lock(app, forward, now),
        SettingsItem::ClipboardClear => adjust_clipboard_clear(app, forward, now),
        SettingsItem::AutoBackup => flip_backup(app, forward, now),
        SettingsItem::ThemeSetting => step_theme(app, forward, now),
        SettingsItem::DefaultGenLength => adjust_length(app, forward, now),
        _ => Effect::Nothing,
    }
}

fn choose_setting(app: &mut App, now: u64) -> (e: Effect)
    requires
        old(app).settings_selected < SETTINGS_COUNT,
        settings_menu()[old(app).settings_selected as int] == SettingsItem::DefaultGenLength
            ==> old(app).config.default_gen_length < usize::MAX,
    ensures
        setting_chosen(*old(app), *final(app), now, e),
{
    let items = settings_items();
    match items[app.settings_selected] {
        SettingsItem::ChangePassword => {
            app.start_password_change();
            Effect::Nothing
        },
        SettingsItem::ExportJson => Effect::ExportVault,
        SettingsItem::ImportJson => {
            app.start_import();
            Effect::Nothing
        },
        _ => adjust_setting(app, true, now),
    }
}

#[verifier::rlimit(60)]
fn handle_settings(app: &mut App, key: Key, now: u64) -> (e: Effect)
    requires
        key_accepted(*old(app), key),
        old(app).screen == Screen::Settings,
    ensures
        settings_key(*old(app), *final(app), key, now, e),
        lists_kept(*old(app), *final(app)),
{
    match key {
        Key::Tab | Key::Esc => {
            app.switch_tab();
            Effect::Nothing
        },
        Key::Char('q') => {
            app.should_quit = true;
            Effect::Nothing
        },
        Key::Down | Key::Char('j') => {
            app.settings_selected = (app.settings_selected + 1) % SETTINGS_COUNT;
            Effect::Nothing
        },
        Key::Up | Key::Char('k') => {
            app.settings_selected = (app.settings_selected + SETTINGS_COUNT - 1) % SETTINGS_COUNT;
            Effect::Nothing
        },
        Key::Left => adjust_setting(app, false, now),
        Key::Right => adjust_setting(app, true, now),
        Key::Enter => choose_setting(app, now),
        _ => Effect::Nothing,
    }
}

} // verus!

verus! {

/// The input of a step of the password change.
pub open spec fn step_input(a: App, step: PasswordChangeStep) -> String {
    match step {
        PasswordChangeStep::CurrentPassword => a.pw_change_current,
        PasswordChangeStep::NewPassword => a.pw_change_new,
        PasswordChangeStep::ConfirmPassword => a.pw_change_confirm,
    }
}

/// The state with the input of a step replaced.
pub open spec fn with_step_input(a: App, step: PasswordChangeStep, s: String) -> App {
    match step {
        PasswordChangeStep::CurrentPassword => App { pw_change_current: s, ..a },
        PasswordChangeStep::NewPassword => App { pw_change_new: s, ..a },
        PasswordChangeStep::ConfirmPassword => App { pw_change_confirm: s, ..a },
    }
}

/// The input of the current step edited to `text`, and the error cleared.
pub open spec fn step_input_edited(a: App, post: App, text: Seq<char>) -> bool {
    &&& post == with_step_input(App { pw_change_error: None, ..a }, a.pw_change_step, step_input(post, a.pw_change_step))
    &&& step_input(post, a.pw_change_step)@ == text
}

/// The length of a text in UTF-8 bytes, as `str::len` gives it.
pub open spec fn byte_len(s: Seq<char>) -> usize {
    vstd::utf8::encode_utf8(s).len() as usize
}

/// The password change shows an error message.
pub open spec fn shows_error(post: App, msg: Seq<char>) -> bool {
    post.pw_change_error matches Some(m) && m@ == msg
}

/// Enter in the password change: the current password must match, the new
/// one must have at least 8 bytes, and the confirmation must repeat it;
/// then the vault is to be saved under the new password.
pub open spec fn change_enter(a: App, post: App, e: Effect) -> bool {
    match a.pw_change_step {
        PasswordChangeStep::CurrentPassword => if a.pw_change_current@ != a.master_password@ {
            &&& post == (App { pw_change_error: post.pw_change_error, pw_change_current: post.pw_change_current, ..a })
            &&& shows_error(post, "Wrong current password"@)
            &&& post.pw_change_current@ == Seq::<char>::empty()
            &&& e is Nothing
        } else {
            post == (App { pw_change_error: None, pw_change_step: PasswordChangeStep::NewPassword, ..a }) && e is Nothing
        },
        PasswordChangeStep::NewPassword => if byte_len(a.pw_change_new@) < 8 {
            &&& post == (App { pw_change_error: post.pw_change_error, ..a })
            &&& shows_error(post, "New password must be at least 8 characters"@)
            &&& e is Nothing
        } else {
            post == (App { pw_change_error: None, pw_change_step: PasswordChangeStep::ConfirmPassword, ..a }) && e is Nothing
        },
        PasswordChangeStep::ConfirmPassword => if a.pw_change_new@ != a.pw_change_confirm@ {
            &&& post == (App { pw_change_error: post.pw_change_error, pw_change_confirm: post.pw_change_confirm, ..a })
            &&& shows_error(post, "Passwords do not match"@)
            &&& post.pw_change_confirm@ == Seq::<char>::empty()
            &&& e is Nothing
        } else {
            post == a && (e matches Effect::ChangeMasterPassword(p) && p@ == a.pw_change_new@)
        },
    }
}

/// A key in the master-password change.
pub open spec fn change_key(a: App, post: App, key: Key, e: Effect) -> bool {
    match key {
        Key::Esc => post == (App { screen: Screen::Settings, pw_change_error: None, ..a }) && e is Nothing,
        Key::Backspace => step_input_edited(a, post, popped(step_input(a, a.pw_change_step)@)) && e is Nothing,
        Key::Char(c) => step_input_edited(a, post, step_input(a, a.pw_change_step)@.push(c)) && e is Nothing,
        Key::Enter => change_enter(a, post, e),
        _ => post == a && e is Nothing,
    }
}

/// A path typed for import, with a leading `~/` read against the home
/// directory when there is one (`home`).
pub open spec fn expanded_path(path: Seq<char>, home: Option<Seq<char>>) -> Seq<char> {
    if starts_with(path, "~/"@) {
        match home {
            Some(h) => path_join(h, path.skip(2)),
            None => path,
        }
    } else {
        path
    }
}

/// Expands a leading `~/` of a path against a home directory.
pub fn expand_home(path: &str, home: Option<&str>) -> (r: String)
    ensures
        r@ == expanded_path(path@, match home {
            Some(h) => Some(h@),
            None => None,
        }),
{
    let cs = chars_of(path);
    let tilde = chars_of("~/");
    proof {
        reveal_strlit("~/");
    }
    if starts_with_chars(&cs, &tilde) {
        match home {
            Some(h) => {
                let rest = skip_chars(&cs, 2);
                let rest_s = string_from_chars(rest.as_slice());
                join_path(h, rest_s.as_str())
            },
            None => owned(path),
        }
    } else {
        owned(path)
    }
}

/// A key in the import prompt. Enter with a path (white space trimmed)
/// asks for entries to be read from it, a leading `~/` standing for the
/// home directory; Enter with none reports that and goes back.
pub open spec fn import_key(a: App, post: App, key: Key, now: u64, e: Effect) -> bool {
    match key {
        Key::Esc => post == (App { screen: Screen::Settings, ..a }) && e is Nothing,
        Key::Backspace => post == (App { import_path_input: post.import_path_input, ..a })
            && post.import_path_input@ == popped(a.import_path_input@) && e is Nothing,
        Key::Char(c) => post == (App { import_path_input: post.import_path_input, ..a })
            && post.import_path_input@ == a.import_path_input@.push(c) && e is Nothing,
        Key::Enter => {
            let p = trim_ws(a.import_path_input@);
            if p.len() == 0 {
                &&& post == (App { screen: Screen::Settings, status_message: post.status_message, ..a })
                &&& post.status_message matches Some(m) && m.0@ == "No path entered"@ && m.1 == now
                &&& e is Nothing
            } else {
                &&& post == a
                &&& e matches Effect::ImportFrom(x) && exists|home: Option<Seq<char>>| x@ == #[trigger] expanded_path(p, home)
            }
        },
        _ => post == a && e is Nothing,
    }
}

fn edit_input(s: &mut String, key: Key)
    requires
        key is Backspace || key is Char,
    ensures
        final(s)@ == (match key {
            Key::Char(c) => old(s)@.push(c),
            _ => popped(old(s)@),
        }),
{
    match key {
        Key::Char(c) => string_push(s, c),
        _ => {
            let _ = string_pop(s);
        },
    }
}

fn edit_step_input(app: &mut App, key: Key)
    requires
        key is Backspace || key is Char,
    ensures
        change_key(*old(app), *final(app), key, Effect::Nothing),
{
    app.pw_change_error = None;
    match app.pw_change_step {
        PasswordChangeStep::CurrentPassword => edit_input(&mut app.pw_change_current, key),
        PasswordChangeStep::NewPassword => edit_input(&mut app.pw_change_new, key),
        PasswordChangeStep::ConfirmPassword => edit_input(&mut app.pw_change_confirm, key),
    }
}

fn check_current(app: &mut App) -> (e: Effect)
    requires
        old(app).pw_change_step == PasswordChangeStep::CurrentPassword,
    ensures
        change_enter(*old(app), *final(app), e),
{
    if !str_eq(app.pw_change_current.as_str(), app.master_password.as_str()) {
        app.pw_change_error = Some(owned("Wrong current password"));
        app.pw_change_current = String::new();
    } else {
        app.pw_change_error = None;
        app.pw_change_step = PasswordChangeStep::NewPassword;
    }
    Effect::Nothing
}

fn check_new(app: &mut App) -> (e: Effect)
    requires
        old(app).pw_change_step == PasswordChangeStep::NewPassword,
    ensures
        change_enter(*old(app), *final(app), e),
{
    if app.pw_change_new.as_str().len() < 8 {
        app.pw_change_error = Some(owned("New password must be at least 8 characters"));
    } else {
        app.pw_change_error = None;
        app.pw_change_step = PasswordChangeStep::ConfirmPassword;
    }
    Effect::Nothing
}

fn check_confirm(app: &mut App) -> (e: Effect)
    requires
        old(app).pw_change_step == PasswordChangeStep::ConfirmPassword,
    ensures
        change_enter(*old(app), *final(app), e),
{
    if !str_eq(app.pw_change_new.as_str(), app.pw_change_confirm.as_str()) {
        app.pw_change_error = Some(owned("Passwords do not match"));
        app.pw_change_confirm = String::new();
        Effect::Nothing
    } else {
        Effect::ChangeMasterPassword(copy_string(&app.pw_change_new))
    }
}

fn change_enter_key(app: &mut App) -> (e: Effect)
    ensures
        change_enter(*old(app), *final(app), e),
{
    match app.pw_change_step {
        PasswordChangeStep::CurrentPassword => check_current(app),
        PasswordChangeStep::NewPassword => check_new(app),
        PasswordChangeStep::ConfirmPassword => check_confirm(app),
    }
}

fn handle_change_password(app: &mut App, key: Key) -> (e: Effect)
    ensures
        change_key(*old(app), *final(app), key, e),
        lists_kept(*old(app), *final(app)),
{
    match key {
        Key::Esc => {
            app.screen = Screen::Settings;
            app.pw_change_error = None;
            Effect::Nothing
        },
        Key::Backspace | Key::Char(_) => {
            edit_step_input(app, key);
            Effect::Nothing
        },
        Key::Enter => change_enter_key(app),
        _ => Effect::Nothing,
    }
}

fn import_enter_key(app: &mut App, now: u64) -> (e: Effect)
    ensures
        import_key(*old(app), *final(app), Key::Enter, now, e),
{
    let cs = chars_of(app.import_path_input.as_str());
    let trimmed = trim_chars(&cs, false);
    if trimmed.len() == 0 {
        app.set_status(owned("No path entered"), now);
        app.screen = Screen::Settings;
        return Effect::Nothing;
    }
    let path = string_from_chars(trimmed.as_slice());
    let home = crate::vault::home_dir();
    let expanded = if starts_with_chars(&trimmed, &chars_of("~/")) {
        match &home {
            Some(h) => expand_home(path.as_str(), Some(h.as_str())),
            None => expand_home(path.as_str(), None),
        }
    } else {
        expand_home(path.as_str(), None)
    };
    proof {
        let hv: Option<Seq<char>> = match home {
            Some(h) => Some(h@),
            None => None,
        };
        if starts_with(path@, "~/"@) {
            assert(expanded@ == expanded_path(path@, hv));
        } else {
            assert(expanded@ == expanded_path(path@, hv));
        }
    }
    Effect::ImportFrom(expanded)
}

fn handle_import_path(app: &mut App, key: Key, now: u64) -> (e: Effect)
    ensures
        import_key(*old(app), *final(app), key, now, e),
        lists_kept(*old(app), *final(app)),
{
    match key {
        Key::Esc => {
            app.screen = Screen::Settings;
            Effect::Nothing
        },
        Key::Backspace => {
            let _ = string_pop(&mut app.import_path_input);
            Effect::Nothing
        },
        Key::Char(c) => {
            string_push(&mut app.import_path_input, c);
            Effect::Nothing
        },
        Key::Enter => import_enter_key(app, now),
        _ => Effect::Nothing,
    }
}

} // verus!

verus! {

/// The screens on which F1 and F2 do not switch tabs: editing and dialogs.
pub open spec fn holds_tab_keys(screen: Screen) -> bool {
    screen == Screen::EditEntry || screen == Screen::ConfirmDelete || screen == Screen::GeneratePassword
        || screen == Screen::ChangePassword || screen == Screen::ImportPath || screen == Screen::Stats
}

/// Whether a key is F1 or F2 switching tabs in the state `a`.
pub open spec fn is_tab_key(a: App, key: Key) -> bool {
    a.input_mode == InputMode::Normal && !holds_tab_keys(a.screen) && (key == Key::F(1) || key == Key::F(2))
}

/// What a key does to the state `a` (already touched, see [`touched`]),
/// counted as [`pressed_as`] says (see [`pressed_key_handled`]).
pub open spec fn key_handled(a: App, post: App, key: Key, now: u64, e: Effect) -> bool {
    pressed_key_handled(a, post, pressed_as(a, key), now, e)
}

/// What a key, as it counts, does to the state `a`: on the lock screen
/// only the lock keys count; F1 and F2 switch to the vault and the settings
/// tab outside editing and dialogs; otherwise the screen decides.
pub open spec fn pressed_key_handled(a: App, post: App, key: Key, now: u64, e: Effect) -> bool {
    if a.screen == Screen::Locked {
        locked_key(a, post, key, now) && e is Nothing
    } else if is_tab_key(a, key) {
        &&& key == Key::F(1) ==> post == (App { active_tab: Tab::Vault, screen: Screen::List, ..a })
        &&& key == Key::F(2) ==> post == (App { active_tab: Tab::Settings, screen: Screen::Settings, ..a })
        &&& e is Nothing
    } else {
        match a.screen {
            Screen::List => list_key(a, post, key, now, e),
            Screen::ViewEntry => view_key(a, post, key, now, e),
            Screen::EditEntry => edit_key(a, post, key, now, e),
            Screen::ConfirmDelete => delete_key(a, post, key, now, e),
            Screen::GeneratePassword => generate_key(a, post, key, now) && e is Nothing,
            Screen::Settings => settings_key(a, post, key, now, e),
            Screen::ChangePassword => change_key(a, post, key, e),
            Screen::ImportPath => import_key(a, post, key, now, e),
            Screen::Stats => stats_key(a, post, key) && e is Nothing,
            _ => post == a && e is Nothing,
        }
    }
}

/// Whether the interface can take a key in its present state (see [`key_accepted`]).
pub fn accepts_key(app: &App, key: Key) -> (r: bool)
    ensures
        r == key_accepted(*app, key),
{
    let key = pressed(app, key);
    let n = app.list_rows.len();
    let wrong = !str_eq(app.lock_password_input.as_str(), app.master_password.as_str());
    let locked_ok = !(app.screen == Screen::Locked && key == Key::Enter && wrong) || app.lock_attempts < u8::MAX;
    let down = key == Key::Down || (app.input_mode == InputMode::Normal && key == Key::Char('j'));
    let up = key == Key::Up || (app.input_mode == InputMode::Normal && key == Key::Char('k'));
    let list_ok = !(app.screen == Screen::List && n > 0) || ((!down || app.selected < usize::MAX) && (!up
        || app.selected <= usize::MAX - n));
    let fields = app.current_fields().len();
    let moves_on = key == Key::Tab || (key == Key::Enter && app.current_field() != EntryField::Notes);
    let edit_ok = !(app.screen == Screen::EditEntry) || ((!moves_on || app.active_field < usize::MAX) && (!(key
        == Key::BackTab) || app.active_field <= usize::MAX - fields));
    let s = app.settings_selected;
    let on_length = s < SETTINGS_COUNT && settings_items()[s] == SettingsItem::DefaultGenLength;
    let settings_ok = !(app.screen == Screen::Settings) || ((!(key == Key::Down || key == Key::Char('j')) || s
        < usize::MAX) && (!(key == Key::Up || key == Key::Char('k')) || s <= usize::MAX - 8) && (!(key
        == Key::Left || key == Key::Right || key == Key::Enter) || s < 8) && (!((key == Key::Right || key
        == Key::Enter) && on_length) || app.config.default_gen_length < usize::MAX));
    locked_ok && list_ok && edit_ok && settings_ok
}

/// Handles a key pressed at time `now` (milliseconds of the interface's
/// clock): notes the activity, drops an expired status message, and lets
/// the screen decide (see [`key_handled`]). The returned [`Effect`] is the
/// outside work the key calls for.
#[verifier::rlimit(100)]
#[verifier::spinoff_prover]
pub fn handle_key(app: &mut App, key: Key, now: u64) -> (e: Effect)
    requires
        rows_valid(*old(app)),
        key_accepted(*old(app), key),
    ensures
        key_handled(touched(*old(app), now), *final(app), key, now, e),
        rows_valid(*final(app)),
{
    app.touch_activity(now);
    app.clear_expired_status(now);
    assert(*app == touched(*old(app), now));
    let key = pressed(app, key);
    assert(pressed_as(*app, key) == key);
    assert(key_accepted(*app, key));
    if app.screen == Screen::Locked {
        handle_locked(app, key, now);
        return Effect::Nothing;
    }
    let holds = match app.screen {
        Screen::EditEntry | Screen::ConfirmDelete | Screen::GeneratePassword | Screen::ChangePassword
        | Screen::ImportPath | Screen::Stats => true,
        _ => false,
    };
    if app.input_mode == InputMode::Normal && !holds {
        match key {
            Key::F(1) => {
                app.active_tab = Tab::Vault;
                app.screen = Screen::List;
                return Effect::Nothing;
            },
            Key::F(2) => {
                app.active_tab = Tab::Settings;
                app.screen = Screen::Settings;
                return Effect::Nothing;
            },
            _ => {},
        }
    }
    match app.screen {
        Screen::List => handle_list(app, key, now),
        Screen::ViewEntry => handle_view(app, key, now),
        Screen::EditEntry => handle_edit(app, key, now),
        Screen::ConfirmDelete => handle_confirm_delete(app, key, now),
        Screen::GeneratePassword => {
            handle_generate_password(app, key, now);
            Effect::Nothing
        },
        Screen::Settings => handle_settings(app, key, now),
        Screen::ChangePassword => handle_change_password(app, key),
        Screen::ImportPath => handle_import_path(app, key, now),
        Screen::Stats => {
            handle_stats(app, key);
            Effect::Nothing
        },
        _ => Effect::Nothing,
    }
}

} // verus!

verus! {

/// The status line shows `msg`, set at time `now`.
pub open spec fn reports(post: App, msg: Seq<char>, now: u64) -> bool {
    post.status_message matches Some(m) && m.0@ == msg && m.1 == now
}

/// After the vault was saved for a key press: a failure is reported.
pub fn finish_save(app: &mut App, saved: Result<(), String>, now: u64)
    ensures
        match saved {
            Ok(_) => *final(app) == *old(app),
            Err(err) => *final(app) == (App { status_message: final(app).status_message, ..*old(app) })
                && reports(*final(app), "Save error: "@ + err@, now),
        },
{
    if let Err(err) = saved {
        report(app, "Save error: ", err.as_str(), now);
    }
}

/// After the vault was saved on quitting: quits when that succeeded,
/// reports the failure otherwise.
pub fn finish_quit(app: &mut App, saved: Result<(), String>, now: u64)
    ensures
        match saved {
            Ok(_) => *final(app) == (App { should_quit: true, ..*old(app) }),
            Err(err) => *final(app) == (App { status_message: final(app).status_message, ..*old(app) })
                && reports(*final(app), "Save error: "@ + err@, now),
        },
{
    match saved {
        Ok(_) => {
            app.should_quit = true;
        },
        Err(err) => report(app, "Save error: ", err.as_str(), now),
    }
}

/// After a password was copied at time `now`: when the copy worked, the
/// clipboard is scheduled for clearing (when that is on) and the status
/// says so; a failure is reported as it came.
pub fn finish_copy_password(app: &mut App, copied: Result<(), String>, now: u64)
    requires
        now + old(app).config.clipboard_clear_seconds * MILLIS_PER_SECOND <= u64::MAX,
    ensures
        match copied {
            Ok(_) => {
                &&& clipboard_scheduled(
                    *old(app),
                    App { status_message: old(app).status_message, ..*final(app) },
                    now,
                )
                &&& reports(*final(app), copied_message(old(app).config), now)
            },
            Err(err) => *final(app) == (App { status_message: final(app).status_message, ..*old(app) })
                && reports(*final(app), err@, now),
        },
{
    match copied {
        Ok(_) => password_copied(app, now),
        Err(err) => app.set_status(err, now),
    }
}

/// The message after a password copy.
pub open spec fn copied_message(c: Config) -> Seq<char> {
    if c.clipboard_clear_seconds > 0 {
        "Password copied (auto-clear in "@ + option_label(
            clipboard_clear_values(),
            clipboard_clear_labels(),
            c.clipboard_clear_seconds,
        ) + ")"@
    } else {
        "Password copied to clipboard"@
    }
}

fn report_copied(app: &mut App, now: u64)
    ensures
        *final(app) == (App { status_message: final(app).status_message, ..*old(app) }),
        reports(*final(app), copied_message(old(app).config), now),
{
    if app.config.clipboard_clear_seconds > 0 {
        let label = app.config.clipboard_clear_label();
        let head = concat("Password copied (auto-clear in ", label);
        report(app, head.as_str(), ")", now);
    } else {
        app.set_status(owned("Password copied to clipboard"), now);
    }
}

fn password_copied(app: &mut App, now: u64)
    requires
        now + old(app).config.clipboard_clear_seconds * MILLIS_PER_SECOND <= u64::MAX,
    ensures
        clipboard_scheduled(*old(app), App { status_message: old(app).status_message, ..*final(app) }, now),
        reports(*final(app), copied_message(old(app).config), now),
{
    app.schedule_clipboard_clear(now);
    let ghost scheduled = *app;
    report_copied(app, now);
    assert(App { status_message: old(app).status_message, ..*app } == scheduled);
}

/// After a username was copied: the status reports the outcome.
pub fn finish_copy_username(app: &mut App, copied: Result<(), String>, now: u64)
    ensures
        *final(app) == (App { status_message: final(app).status_message, ..*old(app) }),
        match copied {
            Ok(_) => reports(*final(app), "Username copied to clipboard"@, now),
            Err(err) => reports(*final(app), err@, now),
        },
{
    match copied {
        Ok(_) => app.set_status(owned("Username copied to clipboard"), now),
        Err(err) => app.set_status(err, now),
    }
}

/// After the vault was exported: the status gives the file or the failure.
pub fn finish_export(app: &mut App, exported: Result<String, String>, now: u64)
    ensures
        *final(app) == (App { status_message: final(app).status_message, ..*old(app) }),
        match exported {
            Ok(path) => reports(*final(app), "Exported to "@ + path@, now),
            Err(err) => reports(*final(app), "Export failed: "@ + err@, now),
        },
{
    match exported {
        Ok(path) => report(app, "Exported to ", path.as_str(), now),
        Err(err) => report(app, "Export failed: ", err.as_str(), now),
    }
}

/// The master password replaced by the new one after a successful save:
/// the inputs cleared, the settings shown with a message.
pub open spec fn password_changed(pre: App, post: App, now: u64) -> bool {
    &&& post == (App {
        master_password: pre.pw_change_new,
        pw_change_current: post.pw_change_current,
        pw_change_new: post.pw_change_new,
        pw_change_confirm: post.pw_change_confirm,
        pw_change_error: None,
        screen: Screen::Settings,
        status_message: post.status_message,
        ..pre
    })
    &&& post.pw_change_current@ == Seq::<char>::empty()
    &&& post.pw_change_new@ == Seq::<char>::empty()
    &&& post.pw_change_confirm@ == Seq::<char>::empty()
    &&& reports(post, "Master password changed successfully"@, now)
}

/// What follows the save under the new master password: on success see
/// [`password_changed`]; a failure shows in the dialog.
pub open spec fn password_change_finished(pre: App, post: App, saved: Result<(), String>, now: u64) -> bool {
    match saved {
        Ok(_) => password_changed(pre, post, now),
        Err(err) => post == (App { pw_change_error: post.pw_change_error, ..pre }) && shows_error(post, "Failed: "@ + err@),
    }
}

/// After the vault was saved under the new master password: on success
/// the new password is the master password, the inputs are cleared and the
/// settings come back with a message; a failure shows in the dialog.
pub fn finish_password_change(app: &mut App, saved: Result<(), String>, now: u64)
    ensures
        password_change_finished(*old(app), *final(app), saved, now),
{
    match saved {
        Ok(_) => {
            app.master_password = app.pw_change_new.clone();
            app.pw_change_current = String::new();
            app.pw_change_new = String::new();
            app.pw_change_confirm = String::new();
            app.pw_change_error = None;
            app.screen = Screen::Settings;
            app.set_status(owned("Master password changed successfully"), now);
        },
        Err(err) => {
            app.pw_change_error = Some(concat("Failed: ", err.as_str()));
        },
    }
}

/// After entries were read for import: they join the vault (each under a
/// fresh identifier) and the vault is to be saved; a failure is reported
/// and the settings come back.
pub fn finish_import(app: &mut App, read: Result<Vec<crate::vault::Entry>, String>, now: u64) -> (e: Effect)
    requires
        rows_valid(*old(app)),
    ensures
        rows_valid(*final(app)),
        match read {
            Ok(entries) => {
                &&& *final(app) == (App { vault: final(app).vault, dirty: true, ..*old(app) })
                &&& final(app).vault@.len() == old(app).vault@.len() + entries@.len()
                &&& forall|i: int| 0 <= i < old(app).vault@.len() ==> #[trigger] final(app).vault@[i] == old(app).vault@[i]
                &&& forall|i: int| 0 <= i < entries@.len() ==> {
                    let x = #[trigger] final(app).vault@[old(app).vault@.len() + i];
                    x == crate::vault::EntryView { id: x.id, ..entries@[i]@ }
                }
                &&& e matches Effect::SaveImported(n) && n == entries@.len()
            },
            Err(err) => {
                &&& *final(app) == (App { screen: Screen::Settings, status_message: final(app).status_message, ..*old(app) })
                &&& reports(*final(app), "Import error: "@ + err@, now)
                &&& e is Nothing
            },
        },
{
    match read {
        Ok(entries) => {
            let count = app.vault.import_entries(entries);
            app.dirty = true;
            Effect::SaveImported(count)
        },
        Err(err) => {
            report(app, "Import error: ", err.as_str(), now);
            app.screen = Screen::Settings;
            Effect::Nothing
        },
    }
}

/// After the vault was saved following an import of `count` entries: the
/// status reports the outcome, the list is rebuilt, and the settings come back.
pub fn finish_import_save(app: &mut App, count: usize, saved: Result<(), String>, now: u64)
    requires
        rows_valid(*old(app)),
    ensures
        rows_valid(*final(app)),
        list_rebuilt(
            App { status_message: final(app).status_message, ..*old(app) },
            App { screen: old(app).screen, ..*final(app) },
        ),
        final(app).screen == Screen::Settings,
        match saved {
            Ok(_) => reports(*final(app), "Imported "@ + decimal(count as nat) + " entries"@, now),
            Err(err) => reports(*final(app), "Import OK but save error: "@ + err@, now),
        },
{
    match saved {
        Ok(_) => {
            let n = decimal_string(count as u64);
            let head = concat("Imported ", n.as_str());
            report(app, head.as_str(), " entries", now);
        },
        Err(err) => report(app, "Import OK but save error: ", err.as_str(), now),
    }
    let ghost mid = *app;
    app.update_filter();
    proof {
        law_rebuilt_rows_valid(mid, *app);
    }
    app.screen = Screen::Settings;
}

} // verus!

verus! {

/// Quitting from the list with unsaved changes never quits before the
/// vault is saved: the key asks for a save first (see `finish_quit`).
pub proof fn law_quit_saves_first(a: App, post: App, now: u64, e: Effect)
    requires
        a.screen == Screen::List,
        a.input_mode == InputMode::Normal,
        a.dirty,
        !a.should_quit,
        key_handled(a, post, Key::Char('q'), now, e),
    ensures
        !post.should_quit,
        e is SaveVaultThenQuit,
{
}

/// A password is hidden whenever an entry is opened for viewing.
pub proof fn law_opened_entry_hides_password(a: App, post: App, key: Key, now: u64, e: Effect)
    requires
        a.screen != Screen::ViewEntry,
        post.screen == Screen::ViewEntry,
        key_handled(a, post, key, now, e),
    ensures
        !post.show_password,
{
}

/// A key that changes the vault marks it as having unsaved changes.
pub proof fn law_vault_change_marks_unsaved(a: App, post: App, key: Key, now: u64, e: Effect)
    requires
        key_handled(a, post, key, now, e),
        post.vault@ != a.vault@,
    ensures
        post.dirty,
{
}

/// What the password-change dialog has checked at its present step:
/// past the first step the current password was the master password, and
/// at the confirmation step the new password has at least 8 bytes.
pub open spec fn change_dialog_ok(a: App) -> bool {
    &&& a.pw_change_step != PasswordChangeStep::CurrentPassword ==> a.pw_change_current@ == a.master_password@
    &&& a.pw_change_step == PasswordChangeStep::ConfirmPassword ==> byte_len(a.pw_change_new@) >= 8
}

/// The password-change dialog keeps its checks: a key never changes the
/// master password, the dialog stays checked while it is open, and the
/// save under a new password is asked for only from the confirmation
/// step, on Enter, when the confirmation repeats the new password, which
/// has at least 8 bytes.
pub proof fn law_change_dialog_checks(a: App, post: App, key: Key, now: u64, e: Effect)
    requires
        a.screen == Screen::ChangePassword,
        change_dialog_ok(a),
        key_handled(a, post, key, now, e),
    ensures
        post.master_password == a.master_password,
        post.screen == Screen::ChangePassword ==> change_dialog_ok(post),
        e matches Effect::ChangeMasterPassword(p) ==> {
            &&& a.pw_change_step == PasswordChangeStep::ConfirmPassword
            &&& pressed_as(a, key) == Key::Enter
            &&& a.pw_change_new@ == a.pw_change_confirm@
            &&& p@ == a.pw_change_new@
            &&& byte_len(p@) >= 8
            &&& post == a
        },
{
}

/// Opening the password-change dialog starts it checked.
pub proof fn law_change_dialog_starts_checked(pre: App, opened: App)
    requires
        password_change_started(pre, opened),
    ensures
        change_dialog_ok(opened),
{
}

/// The master password changes only to a new password the dialog checked:
/// saving from a checked confirmation step makes the new password (of at
/// least 8 bytes) the master password and leaves the dialog.
pub proof fn law_master_password_changes_checked(a: App, post: App, now: u64)
    requires
        a.pw_change_step == PasswordChangeStep::ConfirmPassword,
        change_dialog_ok(a),
        password_changed(a, post, now),
    ensures
        post.master_password@ == a.pw_change_new@,
        byte_len(post.master_password@) >= 8,
        post.screen == Screen::Settings,
{
}

/// The password-change dialog across a key press and, when the key asked
/// for it, the save under the new password with outcome `saved`: while the
/// dialog stays open its checks hold, and the master password changes only
/// when Enter at the confirmation step found the confirmation equal to the
/// new password and the save succeeded; it then becomes that new password,
/// of at least 8 bytes, and the settings come back.
pub proof fn law_password_change_dialog(
    a: App,
    mid: App,
    post: App,
    key: Key,
    now: u64,
    e: Effect,
    saved: Result<(), String>,
    later: u64,
)
    requires
        a.screen == Screen::ChangePassword,
        change_dialog_ok(a),
        key_handled(a, mid, key, now, e),
        if e is ChangeMasterPassword {
            password_change_finished(mid, post, saved, later)
        } else {
            post == mid
        },
    ensures
        post.screen == Screen::ChangePassword ==> change_dialog_ok(post),
        post.master_password@ != a.master_password@ ==> {
            &&& a.pw_change_step == PasswordChangeStep::ConfirmPassword
            &&& pressed_as(a, key) == Key::Enter
            &&& a.pw_change_new@ == a.pw_change_confirm@
            &&& saved is Ok
            &&& post.master_password@ == a.pw_change_new@
            &&& byte_len(post.master_password@) >= 8
            &&& post.screen == Screen::Settings
        },
{
    law_change_dialog_checks(a, mid, key, now, e);
}

} // verus!
