//! The interface's state and its simple operations: tabs and screens,
//! locking, the status line, the clipboard timer, folder navigation and
//! the entry editor's fields.
use vstd::prelude::*;
use crate::order::all_distinct;
use crate::config::{position_of, Config};
use crate::order::lex_sorted;
use crate::text::{chars_eq, chars_of, concat, decimal, decimal_string, copy_string, first_segment, first_segment_chars, owned, starts_with, string_from_chars, views};
use crate::theme::Theme;
use crate::theme::theme_named;
use crate::vault::{blank_entry, Entry, EntryKind, EntryView, Vault};
use crate::listing::{list_rebuilt, listing_sorted};

verus! {

/// The two tabs of the interface.
#[derive(Clone, Copy, Debug, PartialEq, Eq, Structural)]
pub enum Tab {
    Vault,
    Settings,
}

/// The screen being shown.
#[derive(Clone, Copy, Debug, PartialEq, Eq, Structural)]
pub enum Screen {
    List,
    ViewEntry,
    EditEntry,
    ConfirmDelete,
    GeneratePassword,
    Settings,
    ChangePassword,
    Locked,
    ImportPath,
    Stats,
    InitialUnlock,
    InitialSetup,
}

/// How key presses are read.
#[derive(Clone, Copy, Debug, PartialEq, Eq, Structural)]
pub enum InputMode {
    Normal,
    Search,
    Editing,
}

/// The order of the entry list (favorites always come first).
#[derive(Clone, Copy, Debug, PartialEq, Eq, Structural)]
pub enum SortMode {
    /// By name, ignoring case.
    Name,
    /// Newest created first.
    DateCreated,
    /// Most recently changed first.
    DateModified,
}

/// The label of a sort mode.
pub open spec fn sort_mode_label(m: SortMode) -> Seq<char> {
    match m {
        SortMode::Name => "A-Z"@,
        SortMode::DateCreated => "Created"@,
        SortMode::DateModified => "Modified"@,
    }
}

/// The sort mode after a given one, in the cycle name, created, modified.
pub open spec fn sort_mode_next(m: SortMode) -> SortMode {
    match m {
        SortMode::Name => SortMode::DateCreated,
        SortMode::DateCreated => SortMode::DateModified,
        SortMode::DateModified => SortMode::Name,
    }
}

impl SortMode {
    /// The label shown for the sort mode.
    pub fn label(&self) -> (r: &'static str)
        ensures
            r@ == sort_mode_label(*self),
    {
        match self {
            SortMode::Name => "A-Z",
            SortMode::DateCreated => "Created",
            SortMode::DateModified => "Modified",
        }
    }

    /// The next sort mode of the cycle.
    pub fn next(&self) -> (r: Self)
        ensures
            r == sort_mode_next(*self),
    {
        match self {
            SortMode::Name => SortMode::DateCreated,
            SortMode::DateCreated => SortMode::DateModified,
            SortMode::DateModified => SortMode::Name,
        }
    }
}

/// Stepping the sort mode three times returns to where it started.
pub proof fn law_sort_mode_cycle_period_three(m: SortMode)
    ensures
        sort_mode_next(sort_mode_next(sort_mode_next(m))) == m,
        sort_mode_next(m) != m,
{
}

/// A field of the entry editor.
#[derive(Clone, Copy, Debug, PartialEq, Eq, Structural)]
pub enum EntryField {
    Folder,
    Name,
    Username,
    Password,
    Url,
    TotpSecret,
    Tags,
    Notes,
}

/// The fields a password entry is edited through, in order.
pub open spec fn password_fields() -> Seq<EntryField> {
    seq![
        EntryField::Folder,
        EntryField::Name,
        EntryField::Username,
        EntryField::Password,
        EntryField::Url,
        EntryField::TotpSecret,
        EntryField::Tags,
        EntryField::Notes,
    ]
}

/// The fields a note is edited through, in order.
pub open spec fn note_fields() -> Seq<EntryField> {
    seq![EntryField::Folder, EntryField::Name, EntryField::Tags, EntryField::Notes]
}

/// The label of an editor field.
pub open spec fn field_label(f: EntryField) -> Seq<char> {
    match f {
        EntryField::Folder => "Folder"@,
        EntryField::Name => "Name"@,
        EntryField::Username => "Username"@,
        EntryField::Password => "Password"@,
        EntryField::Url => "URL"@,
        EntryField::TotpSecret => "TOTP Secret"@,
        EntryField::Tags => "Tags"@,
        EntryField::Notes => "Notes"@,
    }
}

impl EntryField {
    /// The fields of a password entry, in editing order.
    pub fn all_password() -> (r: &'static [EntryField])
        ensures
            r@ == password_fields(),
    {
        &[
            EntryField::Folder,
            EntryField::Name,
            EntryField::Username,
            EntryField::Password,
            EntryField::Url,
            EntryField::TotpSecret,
            EntryField::Tags,
            EntryField::Notes,
        ]
    }

    /// The fields of a note, in editing order.
    pub fn all_note() -> (r: &'static [EntryField])
        ensures
            r@ == note_fields(),
    {
        &[EntryField::Folder, EntryField::Name, EntryField::Tags, EntryField::Notes]
    }

    /// The label shown for the field.
    pub fn label(&self) -> (r: &'static str)
        ensures
            r@ == field_label(*self),
    {
        match self {
            EntryField::Folder => "Folder",
            EntryField::Name => "Name",
            EntryField::Username => "Username",
            EntryField::Password => "Password",
            EntryField::Url => "URL",
            EntryField::TotpSecret => "TOTP Secret",
            EntryField::Tags => "Tags",
            EntryField::Notes => "Notes",
        }
    }
}

} // verus!

verus! {

/// A row of the entry list: a folder heading or an entry (by its position in the vault).
#[derive(Clone, Debug)]
pub enum ListRow {
    Folder(String),
    Entry(usize),
}

/// The mathematical value of a list row.
pub enum RowView {
    Folder(Seq<char>),
    Entry(usize),
}

impl View for ListRow {
    type V = RowView;

    open spec fn view(&self) -> RowView {
        match self {
            ListRow::Folder(f) => RowView::Folder(f@),
            ListRow::Entry(i) => RowView::Entry(*i),
        }
    }
}

/// The views of a list of rows.
pub open spec fn row_views(v: Seq<ListRow>) -> Seq<RowView> {
    v.map_values(|r: ListRow| r@)
}

/// An item of the settings menu.
#[derive(Clone, Copy, Debug, PartialEq, Eq, Structural)]
pub enum SettingsItem {
    AutoLock,
    ClipboardClear,
    AutoBackup,
    ThemeSetting,
    DefaultGenLength,
    ChangePassword,
    ExportJson,
    ImportJson,
}

/// The settings menu, in order.
pub open spec fn settings_menu() -> Seq<SettingsItem> {
    seq![
        SettingsItem::AutoLock,
        SettingsItem::ClipboardClear,
        SettingsItem::AutoBackup,
        SettingsItem::ThemeSetting,
        SettingsItem::DefaultGenLength,
        SettingsItem::ChangePassword,
        SettingsItem::ExportJson,
        SettingsItem::ImportJson,
    ]
}

/// How many items the settings menu has.
pub const SETTINGS_COUNT: usize = 8;

/// The settings menu, in order.
pub fn settings_items() -> (r: &'static [SettingsItem])
    ensures
        r@ == settings_menu(),
        r@.len() == SETTINGS_COUNT,
{
    &[
        SettingsItem::AutoLock,
        SettingsItem::ClipboardClear,
        SettingsItem::AutoBackup,
        SettingsItem::ThemeSetting,
        SettingsItem::DefaultGenLength,
        SettingsItem::ChangePassword,
        SettingsItem::ExportJson,
        SettingsItem::ImportJson,
    ]
}

/// The label of a settings item.
pub open spec fn settings_label(item: SettingsItem) -> Seq<char> {
    match item {
        SettingsItem::AutoLock => "Auto-lock timeout"@,
        SettingsItem::ClipboardClear => "Clipboard auto-clear"@,
        SettingsItem::AutoBackup => "Auto-backup on save"@,
        SettingsItem::ThemeSetting => "Theme"@,
        SettingsItem::DefaultGenLength => "Default password length"@,
        SettingsItem::ChangePassword => "Change master password"@,
        SettingsItem::ExportJson => "Export vault (JSON)"@,
        SettingsItem::ImportJson => "Import entries (JSON)"@,
    }
}

/// The section a settings item is listed under.
pub open spec fn settings_section(item: SettingsItem) -> Seq<char> {
    match item {
        SettingsItem::AutoLock | SettingsItem::ClipboardClear | SettingsItem::AutoBackup => "Security"@,
        SettingsItem::ThemeSetting | SettingsItem::DefaultGenLength => "Display"@,
        SettingsItem::ChangePassword => "Password"@,
        SettingsItem::ExportJson | SettingsItem::ImportJson => "Data"@,
    }
}

impl SettingsItem {
    /// The label shown for the item.
    pub fn label(&self) -> (r: &'static str)
        ensures
            r@ == settings_label(*self),
    {
        match self {
            SettingsItem::AutoLock => "Auto-lock timeout",
            SettingsItem::ClipboardClear => "Clipboard auto-clear",
            SettingsItem::AutoBackup => "Auto-backup on save",
            SettingsItem::ThemeSetting => "Theme",
            SettingsItem::DefaultGenLength => "Default password length",
            SettingsItem::ChangePassword => "Change master password",
            SettingsItem::ExportJson => "Export vault (JSON)",
            SettingsItem::ImportJson => "Import entries (JSON)",
        }
    }

    /// The section the item is listed under.
    pub fn section(&self) -> (r: &'static str)
        ensures
            r@ == settings_section(*self),
    {
        match self {
            SettingsItem::AutoLock | SettingsItem::ClipboardClear | SettingsItem::AutoBackup => "Security",
            SettingsItem::ThemeSetting | SettingsItem::DefaultGenLength => "Display",
            SettingsItem::ChangePassword => "Password",
            SettingsItem::ExportJson | SettingsItem::ImportJson => "Data",
        }
    }
}

/// The step of first-time setup.
#[derive(Clone, Copy, Debug, PartialEq, Eq, Structural)]
pub enum SetupStep {
    NewPassword,
    ConfirmPassword,
}

/// The step of a master-password change.
#[derive(Clone, Copy, Debug, PartialEq, Eq, Structural)]
pub enum PasswordChangeStep {
    CurrentPassword,
    NewPassword,
    ConfirmPassword,
}

/// Figures about the vault's contents.
#[derive(Clone, Copy, Debug, PartialEq, Eq, Structural)]
pub struct VaultStats {
    pub total: usize,
    pub passwords: usize,
    pub notes: usize,
    pub favorites: usize,
    pub folders: usize,
    pub weak_passwords: usize,
    pub duplicate_passwords: usize,
    pub avg_age_days: u64,
    pub oldest_days: u64,
    pub tags_count: usize,
    pub totp_count: usize,
}

} // verus!

verus! {

/// The state of the interface.
pub struct App {
    // Core
    pub vault: Vault,
    pub master_password: String,
    pub config: Config,
    pub theme: Theme,
    // Tab system
    pub active_tab: Tab,
    // Screen
    pub screen: Screen,
    pub input_mode: InputMode,
    pub should_quit: bool,
    pub dirty: bool,
    // Vault list
    pub search_query: String,
    pub filtered_indices: Vec<usize>,
    pub list_rows: Vec<ListRow>,
    pub selected: usize,
    pub sort_mode: SortMode,
    // Entry editing
    pub edit_buffer: Entry,
    pub edit_is_new: bool,
    pub active_field: usize,
    pub show_password: bool,
    pub edit_tags_buffer: String,
    /// The status line and the time (in milliseconds of the interface's
    /// clock) it was set.
    pub status_message: Option<(String, u64)>,
    // Folder navigation
    pub current_folder: String,
    pub collapsed_folders: Vec<String>,
    // Password generator
    pub gen_length: usize,
    pub gen_uppercase: bool,
    pub gen_lowercase: bool,
    pub gen_digits: bool,
    pub gen_symbols: bool,
    pub gen_preview: String,
    // Settings
    pub settings_selected: usize,
    // Password change
    pub pw_change_step: PasswordChangeStep,
    pub pw_change_current: String,
    pub pw_change_new: String,
    pub pw_change_confirm: String,
    pub pw_change_error: Option<String>,
    // Auto-lock; times are milliseconds of the interface's clock
    pub last_activity: u64,
    pub locked: bool,
    pub lock_password_input: String,
    pub lock_attempts: u8,
    pub lock_error: Option<String>,
    // Clipboard auto-clear
    pub clipboard_clear_at: Option<u64>,
    // Import
    pub import_path_input: String,
    // View entry
    pub show_history: bool,
    // Initial unlock / setup
    pub initial_password_input: String,
    pub initial_password_confirm: String,
    pub initial_setup_step: SetupStep,
    pub initial_error: Option<String>,
    pub initial_attempts: u8,
}

/// The headings directly under a folder: the first path component below it.
pub open spec fn child_prefix(c: Seq<char>) -> Seq<char> {
    c + seq!['/']
}

/// The folder heading that an entry in folder `f` contributes when the list
/// shows folder `c`: at the root, the top component of a non-empty folder;
/// below, the path of the direct subfolder that leads to `f`.
pub open spec fn heading_of(f: Seq<char>, c: Seq<char>) -> Option<Seq<char>> {
    if c.len() == 0 {
        if f.len() == 0 {
            None
        } else {
            Some(first_segment(f))
        }
    } else if f == c {
        None
    } else if starts_with(f, child_prefix(c)) {
        Some(child_prefix(c) + first_segment(f.skip(c.len() as int + 1)))
    } else {
        None
    }
}

/// Whether an entry in folder `f` is listed when the list shows folder `c`
/// and the folders `k` are collapsed.
pub open spec fn shown_in(f: Seq<char>, c: Seq<char>, k: Seq<Seq<char>>) -> bool {
    if c.len() == 0 {
        f.len() == 0 || !k.contains(first_segment(f))
    } else {
        f == c || (starts_with(f, child_prefix(c)) && !k.contains(f))
    }
}

/// Folder `f` is the folder `h` or lies below it.
pub open spec fn under(f: Seq<char>, h: Seq<char>) -> bool {
    f == h || starts_with(f, child_prefix(h))
}

/// An entry in folder `f` is listed directly in folder `c`, below the headings.
pub open spec fn at_root_of(f: Seq<char>, c: Seq<char>) -> bool {
    if c.len() == 0 {
        f.len() == 0
    } else {
        f == c
    }
}

/// `l` lists, in list order, exactly the entry positions that satisfy `p`.
pub open spec fn is_listing(v: Seq<EntryView>, mode: SortMode, l: Seq<usize>, p: spec_fn(usize) -> bool) -> bool {
    &&& listing_sorted(v, mode, l)
    &&& forall|x: usize| l.contains(x) <==> (x < v.len() && p(x))
}

/// Rows for a list of entry positions.
pub open spec fn entry_rows(l: Seq<usize>) -> Seq<RowView> {
    l.map_values(|i: usize| RowView::Entry(i))
}

/// The heading rows: each heading followed, unless it is collapsed, by its entries.
pub open spec fn heading_rows(s: Seq<Seq<char>>, groups: Seq<Seq<usize>>, k: Seq<Seq<char>>) -> Seq<RowView>
    decreases s.len(),
{
    if s.len() == 0 || groups.len() != s.len() {
        Seq::empty()
    } else {
        heading_rows(s.drop_last(), groups.drop_last(), k) + seq![RowView::Folder(s.last())] + (if k.contains(
            s.last(),
        ) {
            Seq::empty()
        } else {
            entry_rows(groups.last())
        })
    }
}

/// The entry positions of rows, in order.
pub open spec fn entries_of_rows(rows: Seq<RowView>) -> Seq<usize>
    decreases rows.len(),
{
    if rows.len() == 0 {
        Seq::empty()
    } else {
        entries_of_rows(rows.drop_last()) + match rows.last() {
            RowView::Entry(i) => seq![i],
            RowView::Folder(_) => Seq::empty(),
        }
    }
}

/// A folder view of the list: sorted distinct headings, the entries of
/// each expanded heading, and the entries directly in the folder.
pub open spec fn folder_layout(
    v: Seq<EntryView>,
    mode: SortMode,
    c: Seq<char>,
    k: Seq<Seq<char>>,
    s: Seq<Seq<char>>,
    groups: Seq<Seq<usize>>,
    root: Seq<usize>,
    rows: Seq<RowView>,
) -> bool {
    &&& all_distinct(s)
    &&& lex_sorted(s)
    &&& forall|h: Seq<char>| #[trigger] s.contains(h) <==> exists|i: int| 0 <= i < v.len() && #[trigger] heading_of(v[i].folder, c) == Some(h)
    &&& groups.len() == s.len()
    &&& forall|j: int| 0 <= j < s.len() && !k.contains(s[j]) ==> is_listing(
        v,
        mode,
        #[trigger] groups[j],
        |x: usize| shown_in(v[x as int].folder, c, k) && under(v[x as int].folder, s[j]),
    )
    &&& is_listing(v, mode, root, |x: usize| at_root_of(v[x as int].folder, c))
    &&& rows == heading_rows(s, groups, k) + entry_rows(root)
}

/// The rows of folder `c`, with folders `k` collapsed.
pub open spec fn folder_view(v: Seq<EntryView>, mode: SortMode, c: Seq<char>, k: Seq<Seq<char>>, rows: Seq<RowView>) -> bool {
    exists|s: Seq<Seq<char>>, groups: Seq<Seq<usize>>, root: Seq<usize>| #[trigger] folder_layout(v, mode, c, k, s, groups, root, rows)
}

/// The top component of a folder path.
pub fn top_folder(folder: &str) -> (r: String)
    ensures
        r@ == first_segment(folder@),
{
    let cs = chars_of(folder);
    let t = first_segment_chars(&cs);
    string_from_chars(t.as_slice())
}

} // verus!

verus! {

/// Milliseconds of the interface's clock in a second.
pub const MILLIS_PER_SECOND: u64 = 1000;

/// How long a status message stays, in seconds.
pub const STATUS_SECONDS: u64 = 3;

/// Wrong unlock attempts after which the program quits.
pub const MAX_UNLOCK_ATTEMPTS: u8 = 3;

/// Whole seconds from `from` to `now` (none when the clock did not advance).
pub open spec fn elapsed_secs(from: u64, now: u64) -> u64 {
    if now >= from {
        ((now - from) / MILLIS_PER_SECOND as int) as u64
    } else {
        0
    }
}

/// The message shown after a wrong unlock attempt.
pub open spec fn wrong_password_message(attempts: u8) -> Seq<char> {
    "Wrong password ("@ + decimal(attempts as nat) + "/3 attempts)"@
}

/// The folder above a folder path: everything before its last `/`, or the root.
pub open spec fn parent_folder(c: Seq<char>) -> Seq<char>
    decreases c.len(),
{
    if c.len() == 0 {
        c
    } else if c.last() == '/' {
        c.drop_last()
    } else {
        parent_folder(c.drop_last())
    }
}

pub(crate) fn elapsed_seconds(from: u64, now: u64) -> (r: u64)
    ensures
        r == elapsed_secs(from, now),
{
    if now >= from {
        (now - from) / MILLIS_PER_SECOND
    } else {
        0
    }
}

/// Locking: the lock screen, its input and attempt count cleared, the password hidden.
pub open spec fn locked_now(pre: App, post: App) -> bool {
    &&& post == (App {
        locked: true,
        screen: Screen::Locked,
        lock_password_input: post.lock_password_input,
        lock_attempts: 0,
        lock_error: None,
        show_password: false,
        ..pre
    })
    &&& post.lock_password_input@ == Seq::<char>::empty()
}

/// An unlock attempt with the typed password at time `now`, which succeeded when `ok`.
pub open spec fn unlock_tried(pre: App, post: App, now: u64, ok: bool) -> bool {
    &&& ok == (pre.lock_password_input@ == pre.master_password@)
    &&& ok ==> post == (App {
        locked: false,
        screen: Screen::List,
        input_mode: InputMode::Normal,
        active_tab: Tab::Vault,
        lock_password_input: post.lock_password_input,
        lock_attempts: 0,
        lock_error: None,
        last_activity: now,
        ..pre
    })
    &&& !ok ==> post == (App {
        lock_attempts: (pre.lock_attempts + 1) as u8,
        lock_password_input: post.lock_password_input,
        should_quit: pre.lock_attempts + 1 >= MAX_UNLOCK_ATTEMPTS || pre.should_quit,
        lock_error: post.lock_error,
        ..pre
    })
    &&& !ok && pre.lock_attempts + 1 < MAX_UNLOCK_ATTEMPTS ==> (post.lock_error matches Some(m) && m@
        == wrong_password_message((pre.lock_attempts + 1) as u8))
    &&& !ok && pre.lock_attempts + 1 >= MAX_UNLOCK_ATTEMPTS ==> post.lock_error == pre.lock_error
    &&& post.lock_password_input@ == Seq::<char>::empty()
}

impl App {
    /// A locked interface, before the vault is opened: first-time setup when
    /// there is no vault file, the unlock prompt otherwise. The theme and
    /// the generator length come from the settings; `now` is the clock.
    pub fn new_locked(vault_exists: bool, config: Config, now: u64) -> (app: Self)
        ensures
            app.vault@ == Seq::<EntryView>::empty(),
            app.master_password@ == Seq::<char>::empty(),
            app.theme == theme_named(config.theme@),
            app.gen_length == config.default_gen_length,
            app.config == config,
            app.screen == (if vault_exists { Screen::InitialUnlock } else { Screen::InitialSetup }),
            app.active_tab == Tab::Vault,
            app.input_mode == InputMode::Normal,
            !app.should_quit,
            !app.dirty,
            app.search_query@ == Seq::<char>::empty(),
            app.filtered_indices@ == Seq::<usize>::empty(),
            app.list_rows@ == Seq::<ListRow>::empty(),
            app.selected == 0,
            app.sort_mode == SortMode::Name,
            app.edit_buffer@ == blank_entry(EntryKind::Password, app.edit_buffer.id, app.edit_buffer.created_at),
            app.edit_is_new,
            app.active_field == 0,
            !app.show_password,
            app.edit_tags_buffer@ == Seq::<char>::empty(),
            app.status_message is None,
            app.current_folder@ == Seq::<char>::empty(),
            app.collapsed_folders@ == Seq::<String>::empty(),
            app.gen_uppercase && app.gen_lowercase && app.gen_digits && app.gen_symbols,
            app.gen_preview@ == Seq::<char>::empty(),
            app.settings_selected == 0,
            app.pw_change_step == PasswordChangeStep::CurrentPassword,
            app.pw_change_current@ == Seq::<char>::empty(),
            app.pw_change_new@ == Seq::<char>::empty(),
            app.pw_change_confirm@ == Seq::<char>::empty(),
            app.pw_change_error is None,
            app.last_activity == now,
            !app.locked,
            app.lock_password_input@ == Seq::<char>::empty(),
            app.lock_attempts == 0,
            app.lock_error is None,
            app.clipboard_clear_at is None,
            app.import_path_input@ == Seq::<char>::empty(),
            !app.show_history,
            app.initial_password_input@ == Seq::<char>::empty(),
            app.initial_password_confirm@ == Seq::<char>::empty(),
            app.initial_setup_step == SetupStep::NewPassword,
            app.initial_error is None,
            app.initial_attempts == 0,
    {
        let theme = Theme::from_name(config.theme.as_str());
        let gen_length = config.default_gen_length;
        let screen = if vault_exists {
            Screen::InitialUnlock
        } else {
            Screen::InitialSetup
        };
        App {
            vault: Vault::new(),
            master_password: String::new(),
            config,
            theme,
            active_tab: Tab::Vault,
            screen,
            input_mode: InputMode::Normal,
            should_quit: false,
            dirty: false,
            search_query: String::new(),
            filtered_indices: Vec::new(),
            list_rows: Vec::new(),
            selected: 0,
            sort_mode: SortMode::Name,
            edit_buffer: Entry::new_password(),
            edit_is_new: true,
            active_field: 0,
            show_password: false,
            edit_tags_buffer: String::new(),
            status_message: None,
            current_folder: String::new(),
            collapsed_folders: Vec::new(),
            gen_length,
            gen_uppercase: true,
            gen_lowercase: true,
            gen_digits: true,
            gen_symbols: true,
            gen_preview: String::new(),
            settings_selected: 0,
            pw_change_step: PasswordChangeStep::CurrentPassword,
            pw_change_current: String::new(),
            pw_change_new: String::new(),
            pw_change_confirm: String::new(),
            pw_change_error: None,
            last_activity: now,
            locked: false,
            lock_password_input: String::new(),
            lock_attempts: 0,
            lock_error: None,
            clipboard_clear_at: None,
            import_path_input: String::new(),
            show_history: false,
            initial_password_input: String::new(),
            initial_password_confirm: String::new(),
            initial_setup_step: SetupStep::NewPassword,
            initial_error: None,
            initial_attempts: 0,
        }
    }

    /// Opens the interface on an unlocked vault: the list of the root
    /// folder, with the prompt's inputs cleared.
    pub fn finalize_unlock(&mut self, vault: Vault, master_password: String, now: u64)
        ensures
            list_rebuilt(
                App {
                    vault: vault,
                    master_password: master_password,
                    initial_password_input: final(self).initial_password_input,
                    initial_password_confirm: final(self).initial_password_confirm,
                    initial_error: None,
                    screen: Screen::List,
                    input_mode: InputMode::Normal,
                    active_tab: Tab::Vault,
                    last_activity: now,
                    ..*old(self)
                },
                *final(self),
            ),
            final(self).initial_password_input@ == Seq::<char>::empty(),
            final(self).initial_password_confirm@ == Seq::<char>::empty(),
    {
        self.vault = vault;
        self.master_password = master_password;
        self.initial_password_input = String::new();
        self.initial_password_confirm = String::new();
        self.initial_error = None;
        self.screen = Screen::List;
        self.input_mode = InputMode::Normal;
        self.active_tab = Tab::Vault;
        self.last_activity = now;
        self.update_filter();
    }

    /// Records activity at time `now`, which postpones the auto-lock.
    pub fn touch_activity(&mut self, now: u64)
        ensures
            *final(self) == (App { last_activity: now, ..*old(self) }),
    {
        self.last_activity = now;
    }

    /// Locks the interface: the lock screen, with its input and attempt
    /// count cleared and the password hidden.
    pub fn lock(&mut self)
        ensures
            locked_now(*old(self), *final(self)),
    {
        self.locked = true;
        self.screen = Screen::Locked;
        self.lock_password_input = String::new();
        self.lock_attempts = 0;
        self.lock_error = None;
        self.show_password = false;
    }

    /// Locks the interface when auto-lock is on, it is not already locked
    /// or still at the first prompt, and `auto_lock_seconds` have passed
    /// since the last activity.
    pub fn check_auto_lock(&mut self, now: u64)
        ensures
            if old(self).config.auto_lock_seconds != 0 && !old(self).locked && old(self).screen != Screen::InitialUnlock
                && old(self).screen != Screen::InitialSetup && elapsed_secs(old(self).last_activity, now)
                >= old(self).config.auto_lock_seconds {
                &&& *final(self) == (App {
                    locked: true,
                    screen: Screen::Locked,
                    lock_password_input: final(self).lock_password_input,
                    lock_attempts: 0,
                    lock_error: None,
                    show_password: false,
                    ..*old(self)
                })
                &&& final(self).lock_password_input@ == Seq::<char>::empty()
            } else {
                *final(self) == *old(self)
            },
    {
        if self.config.auto_lock_seconds == 0 || self.locked || self.screen == Screen::InitialUnlock
            || self.screen == Screen::InitialSetup {
            return;
        }
        if elapsed_seconds(self.last_activity, now) >= self.config.auto_lock_seconds {
            self.lock();
        }
    }

    /// Tries the typed password against the master password. A match
    /// unlocks to the vault list; a mismatch counts an attempt, and the third
    /// failed attempt asks the program to quit.
    #[verifier::rlimit(60)]
    pub fn try_unlock(&mut self, now: u64) -> (ok: bool)
        requires
            old(self).lock_password_input@ != old(self).master_password@ ==> old(self).lock_attempts < u8::MAX,
        ensures
            unlock_tried(*old(self), *final(self), now, ok),
    {
        if self.lock_password_input == self.master_password {
            self.locked = false;
            self.screen = Screen::List;
            self.input_mode = InputMode::Normal;
            self.active_tab = Tab::Vault;
            self.lock_password_input = String::new();
            self.lock_attempts = 0;
            self.lock_error = None;
            self.last_activity = now;
            true
        } else {
            self.lock_attempts = self.lock_attempts + 1;
            self.lock_password_input = String::new();
            if self.lock_attempts >= MAX_UNLOCK_ATTEMPTS {
                self.should_quit = true;
                false
            } else {
                let head = concat("Wrong password (", decimal_string(self.lock_attempts as u64).as_str());
                let msg = concat(head.as_str(), "/3 attempts)");
                self.lock_error = Some(msg);
                false
            }
        }
    }
}

} // verus!

verus! {

/// The string an editor field edits.
pub open spec fn field_string(a: App, f: EntryField) -> String {
    match f {
        EntryField::Folder => a.edit_buffer.folder,
        EntryField::Name => a.edit_buffer.name,
        EntryField::Username => a.edit_buffer.username,
        EntryField::Password => a.edit_buffer.password,
        EntryField::Url => a.edit_buffer.url,
        EntryField::TotpSecret => a.edit_buffer.totp_secret,
        EntryField::Tags => a.edit_tags_buffer,
        EntryField::Notes => a.edit_buffer.notes,
    }
}

/// The state with the string of an editor field replaced.
pub open spec fn with_field(a: App, f: EntryField, s: String) -> App {
    match f {
        EntryField::Folder => App { edit_buffer: Entry { folder: s, ..a.edit_buffer }, ..a },
        EntryField::Name => App { edit_buffer: Entry { name: s, ..a.edit_buffer }, ..a },
        EntryField::Username => App { edit_buffer: Entry { username: s, ..a.edit_buffer }, ..a },
        EntryField::Password => App { edit_buffer: Entry { password: s, ..a.edit_buffer }, ..a },
        EntryField::Url => App { edit_buffer: Entry { url: s, ..a.edit_buffer }, ..a },
        EntryField::TotpSecret => App { edit_buffer: Entry { totp_secret: s, ..a.edit_buffer }, ..a },
        EntryField::Tags => App { edit_tags_buffer: s, ..a },
        EntryField::Notes => App { edit_buffer: Entry { notes: s, ..a.edit_buffer }, ..a },
    }
}

/// The editor fields of an entry kind, in order.
pub open spec fn fields_of(kind: EntryKind) -> Seq<EntryField> {
    match kind {
        EntryKind::Password => password_fields(),
        EntryKind::Note => note_fields(),
    }
}

/// The field of the editor that has the cursor.
pub open spec fn active_field_of(a: App) -> EntryField {
    fields_of(a.edit_buffer.kind)[(a.active_field as int) % (fields_of(a.edit_buffer.kind).len() as int)]
}

/// The clipboard timer set after a copy at time `now`.
pub open spec fn clipboard_scheduled(pre: App, post: App, now: u64) -> bool {
    &&& pre.config.clipboard_clear_seconds > 0 ==> post == (App {
        clipboard_clear_at: Some((now + pre.config.clipboard_clear_seconds * MILLIS_PER_SECOND) as u64),
        ..pre
    })
    &&& pre.config.clipboard_clear_seconds == 0 ==> post == pre
}

/// The next sort mode chosen and reported.
pub open spec fn sort_cycled(pre: App, post: App, now: u64) -> bool {
    &&& list_rebuilt(
        App { sort_mode: sort_mode_next(pre.sort_mode), ..pre },
        App { status_message: pre.status_message, ..post },
    )
    &&& post.status_message matches Some(m) && m.0@ == "Sort: "@ + sort_mode_label(
        sort_mode_next(pre.sort_mode),
    ) && m.1 == now
}

/// The other tab shown.
pub open spec fn tab_switched(pre: App, post: App) -> bool {
    &&& pre.active_tab == Tab::Vault ==> post == (App {
        active_tab: Tab::Settings,
        screen: Screen::Settings,
        input_mode: InputMode::Normal,
        ..pre
    })
    &&& pre.active_tab == Tab::Settings ==> post == (App {
        active_tab: Tab::Vault,
        screen: Screen::List,
        input_mode: InputMode::Normal,
        ..pre
    })
}

/// The master-password change opened.
pub open spec fn password_change_started(pre: App, post: App) -> bool {
    &&& post == (App {
        pw_change_step: PasswordChangeStep::CurrentPassword,
        pw_change_current: post.pw_change_current,
        pw_change_new: post.pw_change_new,
        pw_change_confirm: post.pw_change_confirm,
        pw_change_error: None,
        screen: Screen::ChangePassword,
        ..pre
    })
    &&& post.pw_change_current@ == Seq::<char>::empty()
    &&& post.pw_change_new@ == Seq::<char>::empty()
    &&& post.pw_change_confirm@ == Seq::<char>::empty()
}

/// The import prompt opened.
pub open spec fn import_started(pre: App, post: App) -> bool {
    &&& post == (App {
        import_path_input: post.import_path_input,
        screen: Screen::ImportPath,
        ..pre
    })
    &&& post.import_path_input@ == Seq::<char>::empty()
}

/// A character typed into the field that has the cursor.
pub open spec fn char_typed(pre: App, post: App, c: char) -> bool {
    &&& exists|s: String| #[trigger] with_field(pre, active_field_of(pre), s) == post && s@ == field_string(
        pre,
        active_field_of(pre),
    )@.push(c)
}

/// The last character of the field that has the cursor deleted.
pub open spec fn char_deleted(pre: App, post: App) -> bool {
    &&& exists|s: String| #[trigger] with_field(pre, active_field_of(pre), s) == post && s@ == (if field_string(
        pre,
        active_field_of(pre),
    )@.len() == 0 {
        Seq::<char>::empty()
    } else {
        field_string(pre, active_field_of(pre))@.drop_last()
    })
}

/// The cursor moved to the next field.
pub open spec fn field_advanced(pre: App, post: App) -> bool {
    &&& post == (App {
        active_field: ((pre.active_field + 1) % (fields_of(pre.edit_buffer.kind).len() as int)) as usize,
        ..pre
    })
}

/// The cursor moved to the previous field.
pub open spec fn field_retreated(pre: App, post: App) -> bool {
    &&& post == (App {
        active_field: ((pre.active_field + fields_of(pre.edit_buffer.kind).len() - 1) % (fields_of(
            pre.edit_buffer.kind,
        ).len() as int)) as usize,
        ..pre
    })
}

/// The theme taken from the settings again.
pub open spec fn theme_reloaded(pre: App, post: App) -> bool {
    &&& post == (App { theme: theme_named(pre.config.theme@), ..pre })
}

/// An expired status message removed.
pub open spec fn status_expired(pre: App, post: App, now: u64) -> bool {
    &&& (pre.status_message matches Some(m) && elapsed_secs(m.1, now) >= STATUS_SECONDS) ==> post
        == (App { status_message: None, ..pre })
    &&& !(pre.status_message matches Some(m) && elapsed_secs(m.1, now) >= STATUS_SECONDS) ==> post
        == pre
}

impl App {
    /// Shows a status message, stamped with the time `now`.
    pub fn set_status(&mut self, msg: String, now: u64)
        ensures
            *final(self) == (App { status_message: Some((msg, now)), ..*old(self) }),
    {
        self.status_message = Some((msg, now));
    }

    /// Removes the status message once three seconds have passed since it was set.
    pub fn clear_expired_status(&mut self, now: u64)
        ensures
            status_expired(*old(self), *final(self), now),
    {
        let expired = match &self.status_message {
            Some(m) => elapsed_seconds(m.1, now) >= STATUS_SECONDS,
            None => false,
        };
        if expired {
            self.status_message = None;
        }
    }

    /// After a copy at time `now`, arranges for the clipboard to be cleared
    /// when the configured delay has passed (when clearing is on).
    pub fn schedule_clipboard_clear(&mut self, now: u64)
        requires
            now + old(self).config.clipboard_clear_seconds * MILLIS_PER_SECOND <= u64::MAX,
        ensures
            clipboard_scheduled(*old(self), *final(self), now),
    {
        if self.config.clipboard_clear_seconds > 0 {
            assert(self.config.clipboard_clear_seconds * MILLIS_PER_SECOND <= u64::MAX);
            self.clipboard_clear_at = Some(now + self.config.clipboard_clear_seconds * MILLIS_PER_SECOND);
        }
    }

    /// Whether the clipboard is due to be cleared at time `now`; if so, the
    /// schedule is dropped and the status says so. The caller clears it.
    pub fn check_clipboard_clear(&mut self, now: u64) -> (due: bool)
        ensures
            due == (old(self).clipboard_clear_at matches Some(t) && now >= t),
            due ==> *final(self) == (App {
                clipboard_clear_at: None,
                status_message: final(self).status_message,
                ..*old(self)
            }) && (final(self).status_message matches Some(m) && m.0@ == "Clipboard auto-cleared"@ && m.1 == now),
            !due ==> *final(self) == *old(self),
    {
        let due = match self.clipboard_clear_at {
            Some(t) => now >= t,
            None => false,
        };
        if due {
            self.clipboard_clear_at = None;
            self.set_status(owned("Clipboard auto-cleared"), now);
        }
        due
    }

    /// Steps to the next sort mode, rebuilds the list and reports the new mode.
    pub fn cycle_sort(&mut self, now: u64)
        ensures
            sort_cycled(*old(self), *final(self), now),
    {
        self.sort_mode = self.sort_mode.next();
        self.update_filter();
        let msg = concat("Sort: ", self.sort_mode.label());
        self.set_status(msg, now);
    }

    /// The entry of the selected row, if that row is an entry.
    pub fn selected_entry(&self) -> (r: Option<&Entry>)
        ensures
            r == (if self.selected < self.list_rows@.len() {
                match self.list_rows@[self.selected as int] {
                    ListRow::Entry(i) => if i < self.vault.entries@.len() {
                        Some(&self.vault.entries@[i as int])
                    } else {
                        None
                    },
                    ListRow::Folder(_) => None,
                }
            } else {
                None
            }),
    {
        if self.selected < self.list_rows.len() {
            match &self.list_rows[self.selected] {
                ListRow::Entry(i) => if *i < self.vault.entries.len() {
                    Some(&self.vault.entries[*i])
                } else {
                    None
                },
                ListRow::Folder(_) => None,
            }
        } else {
            None
        }
    }

    /// The vault position of the selected row, if that row is an entry.
    pub fn selected_entry_index(&self) -> (r: Option<usize>)
        ensures
            r == (if self.selected < self.list_rows@.len() {
                match self.list_rows@[self.selected as int] {
                    ListRow::Entry(i) => Some(i),
                    ListRow::Folder(_) => None,
                }
            } else {
                None
            }),
    {
        if self.selected < self.list_rows.len() {
            match &self.list_rows[self.selected] {
                ListRow::Entry(i) => Some(*i),
                ListRow::Folder(_) => None,
            }
        } else {
            None
        }
    }

    /// Whether the selected row is a folder heading.
    pub fn selected_is_folder(&self) -> (r: bool)
        ensures
            r == (self.selected < self.list_rows@.len() && self.list_rows@[self.selected as int] is Folder),
    {
        if self.selected < self.list_rows.len() {
            match &self.list_rows[self.selected] {
                ListRow::Folder(_) => true,
                ListRow::Entry(_) => false,
            }
        } else {
            false
        }
    }

    /// Switches between the vault and settings tabs.
    pub fn switch_tab(&mut self)
        ensures
            tab_switched(*old(self), *final(self)),
    {
        match self.active_tab {
            Tab::Vault => {
                self.active_tab = Tab::Settings;
                self.screen = Screen::Settings;
                self.input_mode = InputMode::Normal;
            },
            Tab::Settings => {
                self.active_tab = Tab::Vault;
                self.screen = Screen::List;
                self.input_mode = InputMode::Normal;
            },
        }
    }

    /// Takes the theme from the settings again.
    pub fn reload_theme(&mut self)
        ensures
            theme_reloaded(*old(self), *final(self)),
    {
        self.theme = Theme::from_name(self.config.theme.as_str());
    }

    /// Opens the master-password change at its first step, inputs cleared.
    pub fn start_password_change(&mut self)
        ensures
            password_change_started(*old(self), *final(self)),
    {
        self.pw_change_step = PasswordChangeStep::CurrentPassword;
        self.pw_change_current = String::new();
        self.pw_change_new = String::new();
        self.pw_change_confirm = String::new();
        self.pw_change_error = None;
        self.screen = Screen::ChangePassword;
    }

    /// Opens the import prompt with an empty path.
    pub fn start_import(&mut self)
        ensures
            import_started(*old(self), *final(self)),
    {
        self.import_path_input = String::new();
        self.screen = Screen::ImportPath;
    }

    /// The fields of the entry being edited, in order.
    pub fn current_fields(&self) -> (r: &'static [EntryField])
        ensures
            r@ == fields_of(self.edit_buffer.kind),
    {
        match self.edit_buffer.kind {
            EntryKind::Password => EntryField::all_password(),
            EntryKind::Note => EntryField::all_note(),
        }
    }

    /// The field that has the cursor.
    pub fn current_field(&self) -> (r: EntryField)
        ensures
            r == active_field_of(*self),
    {
        let fields = self.current_fields();
        fields[self.active_field % fields.len()]
    }

    /// The text of an editor field.
    pub fn get_field_value(&self, field: &EntryField) -> (r: &str)
        ensures
            r@ == field_string(*self, *field)@,
    {
        match field {
            EntryField::Folder => self.edit_buffer.folder.as_str(),
            EntryField::Name => self.edit_buffer.name.as_str(),
            EntryField::Username => self.edit_buffer.username.as_str(),
            EntryField::Password => self.edit_buffer.password.as_str(),
            EntryField::Url => self.edit_buffer.url.as_str(),
            EntryField::TotpSecret => self.edit_buffer.totp_secret.as_str(),
            EntryField::Tags => self.edit_tags_buffer.as_str(),
            EntryField::Notes => self.edit_buffer.notes.as_str(),
        }
    }

    /// The text of an editor field, for changing it.
    pub fn get_field_value_mut(&mut self, field: &EntryField) -> (r: &mut String)
        ensures
            *r == field_string(*old(self), *field),
            *final(self) == with_field(*old(self), *field, *final(r)),
    {
        match field {
            EntryField::Folder => &mut self.edit_buffer.folder,
            EntryField::Name => &mut self.edit_buffer.name,
            EntryField::Username => &mut self.edit_buffer.username,
            EntryField::Password => &mut self.edit_buffer.password,
            EntryField::Url => &mut self.edit_buffer.url,
            EntryField::TotpSecret => &mut self.edit_buffer.totp_secret,
            EntryField::Tags => &mut self.edit_tags_buffer,
            EntryField::Notes => &mut self.edit_buffer.notes,
        }
    }

    /// Types a character into the field that has the cursor.
    pub fn field_push_char(&mut self, c: char)
        ensures
            char_typed(*old(self), *final(self), c),
    {
        let field = self.current_field();
        let ghost pre = *self;
        let r = self.get_field_value_mut(&field);
        crate::text::string_push(r, c);
        assert(with_field(pre, field, field_string(*self, field)) == *self);
    }

    /// Deletes the last character of the field that has the cursor.
    pub fn field_pop_char(&mut self)
        ensures
            char_deleted(*old(self), *final(self)),
    {
        let field = self.current_field();
        let ghost pre = *self;
        let r = self.get_field_value_mut(&field);
        let _ = crate::text::string_pop(r);
        assert(with_field(pre, field, field_string(*self, field)) == *self);
        proof {
            if field_string(pre, field)@.len() == 0 {
                assert(field_string(*self, field)@ =~= Seq::<char>::empty());
            }
        }
        assert(char_deleted(pre, *self));
    }

    /// Moves the cursor to the next field, wrapping around.
    pub fn next_field(&mut self)
        requires
            old(self).active_field < usize::MAX,
        ensures
            field_advanced(*old(self), *final(self)),
    {
        let len = self.current_fields().len();
        self.active_field = (self.active_field + 1) % len;
    }

    /// Moves the cursor to the previous field, wrapping around.
    pub fn prev_field(&mut self)
        requires
            old(self).active_field + fields_of(old(self).edit_buffer.kind).len() <= usize::MAX,
        ensures
            field_retreated(*old(self), *final(self)),
    {
        let len = self.current_fields().len();
        self.active_field = (self.active_field + len - 1) % len;
    }
}

} // verus!

verus! {

#[verifier::rlimit(40)]
pub(crate) fn parent_of(c: &Vec<char>) -> (r: Vec<char>)
    ensures
        r@ == parent_folder(c@),
{
    let mut i = c.len();
    assert(c@.take(i as int) =~= c@);
    while i > 0 && c[i - 1] != '/'
        invariant
            i <= c@.len(),
            parent_folder(c@) == parent_folder(c@.take(i as int)),
        decreases i,
    {
        proof {
            assert(c@.take(i as int).drop_last() =~= c@.take(i - 1));
            assert(c@.take(i as int).last() == c@[i - 1]);
        }
        i = i - 1;
    }
    if i == 0 {
        proof {
            assert(c@.take(0) =~= Seq::<char>::empty());
        }
        Vec::new()
    } else {
        proof {
            assert(c@.take(i as int).drop_last() =~= c@.take(i - 1));
            assert(c@.take(i as int).last() == c@[i - 1]);
        }
        let mut r: Vec<char> = Vec::new();
        let mut j: usize = 0;
        while j < i - 1
            invariant
                i <= c@.len(),
                i > 0,
                j <= i - 1,
                r@ == c@.take(j as int),
            decreases i - 1 - j,
        {
            r.push(c[j]);
            j = j + 1;
            assert(r@ =~= c@.take(j as int));
        }
        r
    }
}

pub(crate) fn position_in(list: &Vec<String>, x: &Vec<char>) -> (r: Option<usize>)
    ensures
        match r {
            Some(p) => position_of(views(list@), x@) == Some(p as int) && p < list@.len(),
            None => position_of(views(list@), x@) is None,
        },
{
    let ghost lv = views(list@);
    let mut i: usize = 0;
    while i < list.len()
        invariant
            lv == views(list@),
            i <= list@.len(),
            forall|j: int| 0 <= j < i ==> lv[j] != x@,
        decreases list@.len() - i,
    {
        let cs = chars_of(list[i].as_str());
        if chars_eq(&cs, x) {
            proof {
                assert(lv[i as int] == x@);
                crate::config::lemma_first_position(lv, x@, i as int);
            }
            return Some(i);
        }
        i = i + 1;
    }
    None
}

/// The folder of the selected heading opened.
pub open spec fn folder_entered(pre: App, post: App) -> bool {
    &&& match (if pre.selected < pre.list_rows@.len() {
        Some(pre.list_rows@[pre.selected as int])
    } else {
        None
    }) {
        Some(ListRow::Folder(f)) => list_rebuilt(
            App { current_folder: post.current_folder, selected: 0, ..pre },
            post,
        ) && post.current_folder@ == f@,
        _ => post == pre,
    }
}

/// The parent folder opened.
pub open spec fn folder_left(pre: App, post: App) -> bool {
    &&& pre.current_folder@.len() == 0 ==> post == pre
    &&& pre.current_folder@.len() > 0 ==> list_rebuilt(
        App { current_folder: post.current_folder, selected: 0, ..pre },
        post,
    ) && post.current_folder@ == parent_folder(pre.current_folder@)
}

/// The selected heading collapsed or expanded.
pub open spec fn collapse_toggled(pre: App, post: App) -> bool {
    &&& match (if pre.selected < pre.list_rows@.len() {
        Some(pre.list_rows@[pre.selected as int])
    } else {
        None
    }) {
        Some(ListRow::Folder(f)) => list_rebuilt(
            App { collapsed_folders: post.collapsed_folders, ..pre },
            post,
        ) && views(post.collapsed_folders@) == toggled(views(pre.collapsed_folders@), f@),
        _ => post == pre,
    }
}

/// The editor opened on a new entry.
pub open spec fn entry_started(pre: App, post: App, kind: EntryKind) -> bool {
    &&& post == (App {
        edit_buffer: post.edit_buffer,
        edit_is_new: true,
        active_field: 0,
        edit_tags_buffer: post.edit_tags_buffer,
        screen: Screen::EditEntry,
        input_mode: InputMode::Editing,
        ..pre
    })
    &&& post.edit_buffer@ == (EntryView {
        folder: pre.current_folder@,
        ..blank_entry(kind, post.edit_buffer.id, post.edit_buffer.created_at)
    })
    &&& post.edit_tags_buffer@ == Seq::<char>::empty()
}

/// The editor opened on the selected entry.
pub open spec fn edit_started(pre: App, post: App) -> bool {
    &&& match self_selected(pre) {
        Some(e) => post == (App {
            edit_buffer: post.edit_buffer,
            edit_is_new: false,
            active_field: 0,
            edit_tags_buffer: post.edit_tags_buffer,
            screen: Screen::EditEntry,
            input_mode: InputMode::Editing,
            ..pre
        }) && post.edit_buffer@ == e && post.edit_tags_buffer@ == crate::text::join(e.tags, ", "@),
        None => post == pre,
    }
}

impl App {
    /// Opens the folder of the selected heading (the selection moves to the top).
    pub fn navigate_into_folder(&mut self)
        ensures
            folder_entered(*old(self), *final(self)),
    {
        if self.selected < self.list_rows.len() {
            let folder = match &self.list_rows[self.selected] {
                ListRow::Folder(f) => Some(copy_string(f)),
                ListRow::Entry(_) => None,
            };
            if let Some(f) = folder {
                self.current_folder = f;
                self.selected = 0;
                self.update_filter();
            }
        }
    }

    /// Goes up to the parent folder (the selection moves to the top); does
    /// nothing at the root.
    pub fn navigate_up_folder(&mut self)
        ensures
            folder_left(*old(self), *final(self)),
    {
        if self.current_folder.as_str().is_empty() {
            return;
        }
        let c = chars_of(self.current_folder.as_str());
        let p = parent_of(&c);
        self.current_folder = string_from_chars(p.as_slice());
        self.selected = 0;
        self.update_filter();
    }

    /// Collapses the selected folder heading, or expands it when it is
    /// collapsed, and rebuilds the list.
    pub fn toggle_folder_collapse(&mut self)
        ensures
            collapse_toggled(*old(self), *final(self)),
    {
        if self.selected < self.list_rows.len() {
            let folder = match &self.list_rows[self.selected] {
                ListRow::Folder(f) => Some(copy_string(f)),
                ListRow::Entry(_) => None,
            };
            if let Some(f) = folder {
                let fc = chars_of(f.as_str());
                let ghost before = views(self.collapsed_folders@);
                match position_in(&self.collapsed_folders, &fc) {
                    Some(p) => {
                        let _ = self.collapsed_folders.remove(p);
                        proof {
                            assert(views(self.collapsed_folders@) =~= before.remove(p as int));
                        }
                    },
                    None => {
                        self.collapsed_folders.push(f);
                        proof {
                            assert(views(self.collapsed_folders@) =~= before.push(fc@));
                        }
                    },
                }
                self.update_filter();
            }
        }
    }

    /// Opens the editor on a new entry of a kind, placed in the current folder.
    pub fn start_new_entry(&mut self, kind: EntryKind)
        ensures
            entry_started(*old(self), *final(self), kind),
    {
        let mut e = match kind {
            EntryKind::Password => Entry::new_password(),
            EntryKind::Note => Entry::new_note(),
        };
        e.folder = copy_string(&self.current_folder);
        self.edit_buffer = e;
        self.edit_is_new = true;
        self.active_field = 0;
        self.edit_tags_buffer = String::new();
        self.screen = Screen::EditEntry;
        self.input_mode = InputMode::Editing;
    }

    /// Opens the editor on a copy of the selected entry, its tags joined
    /// with ", "; does nothing when no entry is selected.
    pub fn start_edit_entry(&mut self)
        ensures
            edit_started(*old(self), *final(self)),
    {
        let copy = match self.selected_entry() {
            Some(e) => Some(e.duplicate()),
            None => None,
        };
        if let Some(e) = copy {
            let tags = crate::text::join_strings(&e.tags, ", ");
            self.edit_buffer = e;
            self.edit_is_new = false;
            self.active_field = 0;
            self.edit_tags_buffer = tags;
            self.screen = Screen::EditEntry;
            self.input_mode = InputMode::Editing;
        }
    }
}

/// The entry of the selected row, if that row is an entry of the vault.
pub open spec fn self_selected(a: App) -> Option<EntryView> {
    if a.selected < a.list_rows@.len() {
        match a.list_rows@[a.selected as int] {
            ListRow::Entry(i) => if i < a.vault.entries@.len() {
                Some(a.vault.entries@[i as int]@)
            } else {
                None
            },
            ListRow::Folder(_) => None,
        }
    } else {
        None
    }
}

/// The vault position of the selected row, if that row is an entry.
pub open spec fn selected_index(a: App) -> Option<usize> {
    if a.selected < a.list_rows@.len() {
        match a.list_rows@[a.selected as int] {
            ListRow::Entry(i) => Some(i),
            ListRow::Folder(_) => None,
        }
    } else {
        None
    }
}

} // verus!

verus! {

/// After locking, typing the master password and pressing Enter unlocks:
/// the vault list comes back with the same vault and master password, and
/// the failed-attempt count is cleared.
pub proof fn law_lock_then_unlock(a: App, locked: App, typed: App, post: App, now: u64, ok: bool)
    requires
        locked_now(a, locked),
        typed == (App { lock_password_input: typed.lock_password_input, ..locked }),
        typed.lock_password_input@ == a.master_password@,
        unlock_tried(typed, post, now, ok),
    ensures
        ok,
        !post.locked,
        post.screen == Screen::List,
        post.vault == a.vault,
        post.master_password == a.master_password,
        post.lock_attempts == 0,
{
}

/// A third wrong password in a row asks the program to quit, and the
/// interface stays locked.
pub proof fn law_third_failure_quits(a: App, post: App, now: u64, ok: bool)
    requires
        a.lock_attempts == 2,
        a.lock_password_input@ != a.master_password@,
        unlock_tried(a, post, now, ok),
    ensures
        !ok,
        post.should_quit,
        post.locked == a.locked,
        post.screen == a.screen,
        post.lock_attempts == MAX_UNLOCK_ATTEMPTS,
{
}

/// Moving to the next editor field and back returns to the field it started on.
pub proof fn law_field_round_trip(a: App, b: App, c: App)
    requires
        a.active_field < fields_of(a.edit_buffer.kind).len(),
        field_advanced(a, b),
        field_retreated(b, c),
    ensures
        c == a,
{
    let n = fields_of(a.edit_buffer.kind).len() as int;
    let x = a.active_field as int;
    assert(n > 0);
    assert(((x + 1) % n + n - 1) % n == x) by (nonlinear_arith)
        requires
            0 <= x < n,
            n > 0,
    {
        if x + 1 < n {
            assert((x + 1) % n == x + 1);
            assert((x + n) % n == x);
        } else {
            assert((x + 1) % n == 0);
            assert((n - 1) % n == n - 1);
        }
    }
}

/// A list of folder names in which none occurs twice.
pub open spec fn no_repeats(list: Seq<Seq<char>>) -> bool {
    forall|i: int, j: int| 0 <= i < j < list.len() ==> list[i] != list[j]
}

/// The collapsed folders after the heading of folder `f` is toggled.
pub open spec fn toggled(list: Seq<Seq<char>>, f: Seq<char>) -> Seq<Seq<char>> {
    match position_of(list, f) {
        Some(p) => list.remove(p),
        None => list.push(f),
    }
}

/// Toggling a folder heading twice leaves the same folders collapsed, and
/// toggling never records a folder twice.
pub proof fn law_collapse_toggle_twice(list: Seq<Seq<char>>, f: Seq<char>, x: Seq<char>)
    requires
        no_repeats(list),
    ensures
        no_repeats(toggled(list, f)),
        toggled(toggled(list, f), f).contains(x) == list.contains(x),
{
    let once = toggled(list, f);
    match position_of(list, f) {
        Some(p) => {
            assert(0 <= p < list.len() && list[p] == f);
            assert forall|i: int, j: int| 0 <= i < j < once.len() implies once[i] != once[j] by {
                let ii = if i < p { i } else { i + 1 };
                let jj = if j < p { j } else { j + 1 };
                assert(once[i] == list[ii] && once[j] == list[jj]);
            }
            assert(!once.contains(f)) by {
                if once.contains(f) {
                    let k = choose|k: int| 0 <= k < once.len() && once[k] == f;
                    let kk = if k < p { k } else { k + 1 };
                    assert(once[k] == list[kk]);
                }
            }
            assert(position_of(once, f) is None);
            let twice = once.push(f);
            assert(twice.contains(x) == list.contains(x)) by {
                if list.contains(x) {
                    let k = choose|k: int| 0 <= k < list.len() && list[k] == x;
                    if k < p {
                        assert(twice[k] == x);
                    } else if k > p {
                        assert(twice[k - 1] == x);
                    } else {
                        assert(twice[twice.len() - 1] == x);
                    }
                }
                if twice.contains(x) {
                    let k = choose|k: int| 0 <= k < twice.len() && twice[k] == x;
                    if k < once.len() {
                        let kk = if k < p { k } else { k + 1 };
                        assert(list[kk] == x);
                    } else {
                        assert(list[p] == x);
                    }
                }
            }
        },
        None => {
            assert(!list.contains(f));
            assert forall|i: int, j: int| 0 <= i < j < once.len() implies once[i] != once[j] by {
                if j == list.len() {
                    assert(list[i] != f);
                }
            }
            let n = list.len() as int;
            assert(once[n] == f);
            assert forall|j: int| 0 <= j < n implies once[j] != f by {
                assert(once[j] == list[j]);
            }
            crate::config::lemma_first_position(once, f, n);
            assert(once.remove(n) =~= list);
        },
    }
}

} // verus!

verus! {

/// After a copy at time `now` with clearing on, the clipboard falls due
/// exactly when the configured number of seconds has passed.
pub proof fn law_clipboard_due_after_delay(a: App, b: App, now: u64, later: u64)
    requires
        a.config.clipboard_clear_seconds > 0,
        now + a.config.clipboard_clear_seconds * MILLIS_PER_SECOND <= u64::MAX,
        clipboard_scheduled(a, b, now),
    ensures
        b.clipboard_clear_at matches Some(t) && (later >= t <==> later >= now + a.config.clipboard_clear_seconds
            * MILLIS_PER_SECOND),
{
}

/// A status message set at time `t` stays until three whole seconds have
/// passed, and then goes.
pub proof fn law_status_lasts_three_seconds(a: App, msg: String, t: u64, now: u64, post: App)
    requires
        now >= t,
        status_expired(App { status_message: Some((msg, t)), ..a }, post, now),
    ensures
        post.status_message is None <==> now - t >= STATUS_SECONDS * MILLIS_PER_SECOND,
{
    assert(elapsed_secs(t, now) == (now - t) / 1000);
}

} // verus!
