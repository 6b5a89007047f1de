//! The text the interface shows: truncated columns, list rows, titles,
//! setting values, masks and the code timer. Drawing them is left to the
//! terminal front end; what they say is decided here.
use vstd::prelude::*;
use crate::app::{child_prefix, field_string, App, EntryField, PasswordChangeStep, SettingsItem, under};
use crate::config::{auto_lock_labels, auto_lock_values, clipboard_clear_labels, clipboard_clear_values, option_label};
use crate::text::{chars_of, copy_string, concat, count_char, count_chars, decimal, decimal_string, holds_string, join, join_strings, owned, starts_with, starts_with_chars, string_from_chars, views};
use crate::theme::{Color, Theme};
use crate::vault::{Entry, EntryKind, EntryView, PasswordHistoryItem, Vault};

verus! {

/// A text cut to at most `max` characters: a longer text keeps its first
/// `max - 1` characters and ends in `~`.
pub open spec fn truncated(s: Seq<char>, max: usize) -> Seq<char> {
    if max == 0 {
        Seq::empty()
    } else if s.len() <= max {
        s
    } else {
        s.take(max - 1) + seq!['~']
    }
}

/// A truncated text fits its width, and a text that already fits is left as it is.
pub proof fn law_truncated_fits(s: Seq<char>, max: usize)
    ensures
        truncated(s, max).len() <= max,
        s.len() <= max ==> truncated(s, max) == s,
{
    if max == 0 && s.len() == 0 {
        assert(s =~= Seq::<char>::empty());
    }
}

/// Cuts a text to at most `max` characters (see [`truncated`]).
pub fn truncate_str(s: &str, max: usize) -> (r: String)
    ensures
        r@ == truncated(s@, max),
{
    if max == 0 {
        return String::new();
    }
    let cs = chars_of(s);
    if cs.len() <= max {
        owned(s)
    } else {
        let mut out: Vec<char> = Vec::new();
        let mut i: usize = 0;
        while i < max - 1
            invariant
                max > 0,
                max < cs@.len(),
                i <= max - 1,
                out@ == cs@.take(i as int),
            decreases max - 1 - i,
        {
            out.push(cs[i]);
            i = i + 1;
            assert(out@ =~= cs@.take(i as int));
        }
        out.push('~');
        string_from_chars(out.as_slice())
    }
}

/// The key hint shown after a settings item: arrows for values, Enter for actions.
pub open spec fn hint_of(item: SettingsItem) -> Seq<char> {
    match item {
        SettingsItem::AutoLock | SettingsItem::ClipboardClear | SettingsItem::ThemeSetting
        | SettingsItem::DefaultGenLength => "  (</>)"@,
        _ => "  (Enter)"@,
    }
}

/// The key hint of a settings item.
pub fn settings_hint(item: &SettingsItem) -> (r: String)
    ensures
        r@ == hint_of(*item),
{
    match item {
        SettingsItem::AutoLock | SettingsItem::ClipboardClear | SettingsItem::ThemeSetting
        | SettingsItem::DefaultGenLength => owned("  (</>)"),
        _ => owned("  (Enter)"),
    }
}

/// The value shown beside a settings item.
pub open spec fn setting_value(a: App, item: SettingsItem) -> Seq<char> {
    match item {
        SettingsItem::AutoLock => option_label(auto_lock_values(), auto_lock_labels(), a.config.auto_lock_seconds),
        SettingsItem::ClipboardClear => option_label(
            clipboard_clear_values(),
            clipboard_clear_labels(),
            a.config.clipboard_clear_seconds,
        ),
        SettingsItem::AutoBackup => if a.config.backup_enabled {
            "[x] On"@
        } else {
            "[ ] Off"@
        },
        SettingsItem::ThemeSetting => a.config.theme@,
        SettingsItem::DefaultGenLength => decimal(a.config.default_gen_length as nat) + " chars"@,
        SettingsItem::ChangePassword => "***"@,
        SettingsItem::ExportJson => "~/.gmp/export.json"@,
        SettingsItem::ImportJson => "Select file..."@,
    }
}

/// The value shown beside a settings item.
pub fn settings_value_display(app: &App, item: &SettingsItem) -> (r: String)
    ensures
        r@ == setting_value(*app, *item),
{
    match item {
        SettingsItem::AutoLock => owned(app.config.auto_lock_label()),
        SettingsItem::ClipboardClear => owned(app.config.clipboard_clear_label()),
        SettingsItem::AutoBackup => if app.config.backup_enabled {
            owned("[x] On")
        } else {
            owned("[ ] Off")
        },
        SettingsItem::ThemeSetting => owned(app.config.theme.as_str()),
        SettingsItem::DefaultGenLength => {
            let n = decimal_string(app.config.default_gen_length as u64);
            concat(n.as_str(), " chars")
        },
        SettingsItem::ChangePassword => owned("***"),
        SettingsItem::ExportJson => owned("~/.gmp/export.json"),
        SettingsItem::ImportJson => owned("Select file..."),
    }
}

/// Tags written as `#tag`.
pub open spec fn hashed(tags: Seq<Seq<char>>) -> Seq<Seq<char>> {
    Seq::new(tags.len(), |i: int| "#"@ + tags[i])
}

/// Tags as shown: `#tag`, separated by spaces.
pub fn tags_display(tags: &Vec<String>) -> (r: String)
    ensures
        r@ == join(hashed(views(tags@)), " "@),
{
    let mut marked: Vec<String> = Vec::new();
    let mut i: usize = 0;
    while i < tags.len()
        invariant
            i <= tags@.len(),
            views(marked@) == hashed(views(tags@)).take(i as int),
        decreases tags@.len() - i,
    {
        let t = concat("#", tags[i].as_str());
        let ghost before = marked@;
        marked.push(t);
        proof {
            assert(marked@ == before.push(t));
            assert(views(marked@) =~= views(before).push(t@));
            assert(hashed(views(tags@))[i as int] == "#"@ + tags@[i as int]@);
        }
        i = i + 1;
        assert(views(marked@) =~= hashed(views(tags@)).take(i as int));
    }
    assert(hashed(views(tags@)).take(tags@.len() as int) =~= hashed(views(tags@)));
    join_strings(&marked, " ")
}

/// The widths of the name, tags and detail columns of the entry list on a
/// screen `width` columns wide: ten columns go to the frame and markers;
/// the name takes 30% of the rest (12 to 45), the tags 15% (at most 20), the
/// detail what remains.
pub open spec fn column_widths(width: u16) -> (usize, usize, usize) {
    let usable: int = if width >= 10 { width - 10 } else { 0 };
    let name: int = if usable * 30 / 100 < 12 {
        12
    } else if usable * 30 / 100 > 45 {
        45
    } else {
        usable * 30 / 100
    };
    let tags: int = if usable * 15 / 100 > 20 { 20 } else { usable * 15 / 100 };
    let detail: int = if usable - name - tags > 0 { usable - name - tags } else { 0 };
    (name as usize, tags as usize, detail as usize)
}

/// The column widths of the entry list (see [`column_widths`]).
pub fn list_columns(width: u16) -> (r: (usize, usize, usize))
    ensures
        r == column_widths(width),
{
    let w = width as usize;
    let usable = if w >= 10 { w - 10 } else { 0 };
    let n = usable * 30 / 100;
    let name = if n < 12 { 12 } else if n > 45 { 45 } else { n };
    let t = usable * 15 / 100;
    let tags = if t > 20 { 20 } else { t };
    let rest = if usable >= name { usable - name } else { 0 };
    let detail = if rest >= tags { rest - tags } else { 0 };
    (name, tags, detail)
}

/// A character of a note preview: line breaks become spaces.
pub open spec fn flat(c: char) -> char {
    if c == '\n' { ' ' } else { c }
}

/// The detail column of an entry: for a password, its username and URL
/// (`user | url` when both are set); for a note, the first 60 characters
/// of its text on one line.
pub open spec fn detail_of(e: EntryView) -> Seq<char> {
    match e.kind {
        EntryKind::Password => if e.username.len() == 0 && e.url.len() == 0 {
            Seq::empty()
        } else if e.username.len() == 0 {
            e.url
        } else if e.url.len() == 0 {
            e.username
        } else {
            e.username + " | "@ + e.url
        },
        EntryKind::Note => {
            let n: int = if e.notes.len() < 60 { e.notes.len() as int } else { 60 };
            Seq::new(n as nat, |i: int| flat(e.notes[i]))
        },
    }
}

/// The detail column of an entry (see [`detail_of`]).
pub fn entry_detail(entry: &Entry) -> (r: String)
    ensures
        r@ == detail_of(entry@),
{
    match entry.kind {
        EntryKind::Password => {
            let no_user = entry.username.as_str().is_empty();
            let no_url = entry.url.as_str().is_empty();
            if no_user && no_url {
                String::new()
            } else if no_user {
                owned(entry.url.as_str())
            } else if no_url {
                owned(entry.username.as_str())
            } else {
                let head = concat(entry.username.as_str(), " | ");
                concat(head.as_str(), entry.url.as_str())
            }
        },
        EntryKind::Note => {
            let cs = chars_of(entry.notes.as_str());
            let n = if cs.len() < 60 { cs.len() } else { 60 };
            let mut out: Vec<char> = Vec::new();
            let mut i: usize = 0;
            while i < n
                invariant
                    n <= cs@.len(),
                    cs@ == entry.notes@,
                    i <= n,
                    out@ == Seq::new(i as nat, |k: int| flat(cs@[k])),
                decreases n - i,
            {
                let c = cs[i];
                out.push(if c == '\n' { ' ' } else { c });
                i = i + 1;
                assert(out@ =~= Seq::new(i as nat, |k: int| flat(cs@[k])));
            }
            assert(out@ =~= detail_of(entry@));
            string_from_chars(out.as_slice())
        },
    }
}

/// How far an entry row is indented in the list: not at all while
/// searching or for an entry outside any folder; at the root, one step per
/// folder level; inside a folder, by its depth below that folder.
pub open spec fn depth_of(a: App, e: EntryView) -> nat {
    if a.search_query@.len() > 0 || e.folder.len() == 0 {
        0
    } else if a.current_folder@.len() == 0 {
        count_char(e.folder, '/') + 1
    } else if starts_with(e.folder, child_prefix(a.current_folder@)) {
        let rel = e.folder.skip(child_prefix(a.current_folder@).len() as int);
        if rel.len() == 0 {
            1
        } else {
            count_char(rel, '/') + 2
        }
    } else {
        1
    }
}

/// How far an entry row is indented (see [`depth_of`]).
pub fn entry_depth(app: &App, entry: &Entry) -> (r: usize)
    requires
        entry@.folder.len() < usize::MAX,
    ensures
        r == depth_of(*app, entry@),
{
    if !app.search_query.as_str().is_empty() || entry.folder.as_str().is_empty() {
        return 0;
    }
    let folder = chars_of(entry.folder.as_str());
    if app.current_folder.as_str().is_empty() {
        let n = count_chars(&folder, '/');
        return n + 1;
    }
    let cur = chars_of(app.current_folder.as_str());
    let mut prefix = cur.clone();
    prefix.push('/');
    assert(prefix@ =~= child_prefix(app.current_folder@));
    if starts_with_chars(&folder, &prefix) {
        let rel = crate::text::skip_chars(&folder, prefix.len());
        if rel.len() == 0 {
            1
        } else {
            let n = count_chars(&rel, '/');
            n + 2
        }
    } else {
        1
    }
}

/// The last component of a folder path: what follows its last `/`.
pub open spec fn last_segment(s: Seq<char>) -> Seq<char>
    decreases s.len(),
{
    if s.len() == 0 {
        s
    } else if s.last() == '/' {
        Seq::empty()
    } else {
        last_segment(s.drop_last()).push(s.last())
    }
}

/// The name a folder heading shows: the last component of its path.
pub fn folder_display_name(folder: &str) -> (r: String)
    ensures
        r@ == last_segment(folder@),
{
    let cs = chars_of(folder);
    let mut start = cs.len();
    assert(cs@.take(start as int) =~= cs@);
    assert(cs@.skip(start as int) =~= Seq::<char>::empty());
    while start > 0 && cs[start - 1] != '/'
        invariant
            start <= cs@.len(),
            last_segment(cs@) == last_segment(cs@.take(start as int)) + cs@.skip(start as int),
        decreases start,
    {
        proof {
            let t = cs@.take(start as int);
            assert(t.drop_last() =~= cs@.take(start - 1));
            assert(t.last() == cs@[start - 1]);
            assert(last_segment(t) == last_segment(cs@.take(start - 1)).push(cs@[start - 1]));
            assert(seq![cs@[start - 1]] + cs@.skip(start as int) =~= cs@.skip(start - 1));
            assert(last_segment(cs@.take(start - 1)).push(cs@[start - 1]) + cs@.skip(start as int)
                =~= last_segment(cs@.take(start - 1)) + cs@.skip(start - 1));
        }
        start = start - 1;
    }
    proof {
        if start == 0 {
            assert(cs@.take(0) =~= Seq::<char>::empty());
        } else {
            assert(cs@.take(start as int).last() == cs@[start - 1]);
        }
        assert(last_segment(cs@.take(start as int)) =~= Seq::<char>::empty());
        assert(last_segment(cs@) =~= cs@.skip(start as int));
    }
    let rest = crate::text::skip_chars(&cs, start);
    string_from_chars(rest.as_slice())
}

/// How many entries of the vault lie in a folder or below it.
pub open spec fn entries_under(v: Seq<EntryView>, folder: Seq<char>) -> nat
    decreases v.len(),
{
    if v.len() == 0 {
        0
    } else {
        entries_under(v.drop_last(), folder) + (if under(v.last().folder, folder) { 1nat } else { 0nat })
    }
}

/// How many entries of the vault lie in a folder or below it.
pub fn folder_entry_count(vault: &Vault, folder: &str) -> (r: usize)
    ensures
        r == entries_under(vault@, folder@),
{
    let f = chars_of(folder);
    let mut prefix = f.clone();
    prefix.push('/');
    assert(prefix@ =~= child_prefix(folder@));
    let mut n: usize = 0;
    let mut i: usize = 0;
    while i < vault.entries.len()
        invariant
            i <= vault@.len(),
            vault@.len() == vault.entries@.len(),
            f@ == folder@,
            prefix@ == child_prefix(folder@),
            n == entries_under(vault@.take(i as int), folder@),
            n <= i,
        decreases vault@.len() - i,
    {
        let ef = chars_of(vault.entries[i].folder.as_str());
        let inside = crate::text::chars_eq(&ef, &f) || starts_with_chars(&ef, &prefix);
        proof {
            assert(vault@.take(i + 1).drop_last() =~= vault@.take(i as int));
            assert(vault@.take(i + 1).last() == vault@[i as int]);
            assert(vault@[i as int] == vault.entries@[i as int]@);
        }
        if inside {
            n = n + 1;
        }
        i = i + 1;
    }
    assert(vault@.take(vault@.len() as int) =~= vault@);
    n
}

/// Whether a folder heading is collapsed.
pub fn is_folder_collapsed(app: &App, folder: &str) -> (r: bool)
    ensures
        r == views(app.collapsed_folders@).contains(folder@),
{
    let f = chars_of(folder);
    holds_string(&app.collapsed_folders, &f)
}

/// How many characters wide the mask of a hidden password is: its length
/// in bytes, kept between 8 and 16.
pub open spec fn mask_width(byte_len: usize) -> usize {
    if byte_len < 8 {
        8
    } else if byte_len > 16 {
        16
    } else {
        byte_len
    }
}

/// The mask shown for a hidden password.
pub fn password_mask(password: &str) -> (r: String)
    ensures
        r@ == Seq::new(mask_width(password.len() as usize) as nat, |i: int| '●'),
{
    let w = mask_width_of(password.len());
    let mut out: Vec<char> = Vec::new();
    let mut i: usize = 0;
    while i < w
        invariant
            i <= w,
            out@ == Seq::new(i as nat, |k: int| '●'),
        decreases w - i,
    {
        out.push('●');
        i = i + 1;
        assert(out@ =~= Seq::new(i as nat, |k: int| '●'));
    }
    string_from_chars(out.as_slice())
}

fn mask_width_of(n: usize) -> (r: usize)
    ensures
        r == mask_width(n),
{
    if n < 8 {
        8
    } else if n > 16 {
        16
    } else {
        n
    }
}

/// How many of the twenty cells of the code timer are filled with
/// `remaining` seconds of thirty left.
pub open spec fn timer_fill(remaining: u64) -> usize {
    if remaining * 20 / 30 > 20 {
        20
    } else {
        (remaining * 20 / 30) as usize
    }
}

/// The cells of the code timer that are filled.
pub fn code_timer_fill(remaining: u64) -> (r: usize)
    requires
        remaining * 20 <= u64::MAX,
    ensures
        r == timer_fill(remaining),
{
    let f = remaining * 20 / 30;
    if f > 20 {
        20
    } else {
        f as usize
    }
}

/// The colour of the code timer: the error colour for the last five
/// seconds, the highlight for the five before, else the success colour.
pub open spec fn timer_color(t: Theme, remaining: u64) -> Color {
    if remaining <= 5 {
        t.error
    } else if remaining <= 10 {
        t.active
    } else {
        t.success
    }
}

/// The colour of the code timer (see [`timer_color`]).
pub fn code_timer_color(t: &Theme, remaining: u64) -> (r: Color)
    ensures
        r == timer_color(*t, remaining),
{
    if remaining <= 5 {
        t.error
    } else if remaining <= 10 {
        t.active
    } else {
        t.success
    }
}

/// A six-digit code shown as two groups of three.
pub fn spaced_code(code: &str) -> (r: String)
    requires
        code@.len() == 6,
    ensures
        r@ == code@.take(3) + " "@ + code@.skip(3),
{
    let cs = chars_of(code);
    let mut out: Vec<char> = Vec::new();
    out.push(cs[0]);
    out.push(cs[1]);
    out.push(cs[2]);
    out.push(' ');
    out.push(cs[3]);
    out.push(cs[4]);
    out.push(cs[5]);
    proof {
        reveal_strlit(" ");
        assert(out@ =~= code@.take(3) + " "@ + code@.skip(3));
    }
    string_from_chars(out.as_slice())
}

/// The colour of a password strength label.
pub open spec fn strength_color(label: Seq<char>) -> Color {
    if label == "Strong"@ {
        Color::Green
    } else if label == "Good"@ {
        Color::LightGreen
    } else if label == "Fair"@ {
        Color::Yellow
    } else if label == "Weak"@ || label == "Too short"@ {
        Color::Red
    } else {
        Color::DarkGray
    }
}

/// The colour of a password strength label (see [`strength_color`]).
pub fn strength_color_from_label(label: &str) -> (r: Color)
    ensures
        r == strength_color(label@),
{
    if crate::text::str_eq(label, "Strong") {
        Color::Green
    } else if crate::text::str_eq(label, "Good") {
        Color::LightGreen
    } else if crate::text::str_eq(label, "Fair") {
        Color::Yellow
    } else if crate::text::str_eq(label, "Weak") || crate::text::str_eq(label, "Too short") {
        Color::Red
    } else {
        Color::DarkGray
    }
}

/// The position shown in the list title: ` n/len` for the selected row,
/// nothing for an empty list.
pub open spec fn scroll_text(a: App) -> Seq<char> {
    if a.list_rows@.len() == 0 {
        Seq::empty()
    } else {
        " "@ + decimal((a.selected + 1) as nat) + "/"@ + decimal(a.list_rows@.len())
    }
}

/// The title of the entry list: search results with their count among all
/// entries, all entries at the root, or the current folder with its
/// count; then the sort mode and the position.
pub open spec fn title_of(a: App) -> Seq<char> {
    let tail = " ["@ + crate::app::sort_mode_label(a.sort_mode) + "]"@ + scroll_text(a) + " "@;
    if a.search_query@.len() > 0 {
        " Results ("@ + decimal(a.filtered_indices@.len()) + "/"@ + decimal(a.vault.entries@.len()) + ")"@ + tail
    } else if a.current_folder@.len() == 0 {
        " Entries ("@ + decimal(a.vault.entries@.len()) + ")"@ + tail
    } else {
        " /"@ + a.current_folder@ + " ("@ + decimal(a.filtered_indices@.len()) + ")"@ + tail
    }
}

fn join3(a: &str, b: &str, c: &str) -> (r: String)
    ensures
        r@ == a@ + b@ + c@,
{
    let ab = concat(a, b);
    concat(ab.as_str(), c)
}

/// The title of the entry list (see [`title_of`]).
pub fn list_title(app: &App) -> (r: String)
    requires
        app.list_rows@.len() > 0 ==> app.selected < usize::MAX,
    ensures
        r@ == title_of(*app),
{
    let scroll = if app.list_rows.len() == 0 {
        String::new()
    } else {
        let pos = decimal_string((app.selected + 1) as u64);
        let len = decimal_string(app.list_rows.len() as u64);
        let head = join3(" ", pos.as_str(), "/");
        concat(head.as_str(), len.as_str())
    };
    let sort_part = join3(" [", app.sort_mode.label(), "]");
    let tail = join3(sort_part.as_str(), scroll.as_str(), " ");
    let total = decimal_string(app.vault.entries.len() as u64);
    let shown = decimal_string(app.filtered_indices.len() as u64);
    let head = if !app.search_query.as_str().is_empty() {
        let a = join3(" Results (", shown.as_str(), "/");
        join3(a.as_str(), total.as_str(), ")")
    } else if app.current_folder.as_str().is_empty() {
        join3(" Entries (", total.as_str(), ")")
    } else {
        let a = join3(" /", app.current_folder.as_str(), " (");
        join3(a.as_str(), shown.as_str(), ")")
    };
    let r = concat(head.as_str(), tail.as_str());
    proof {
        reveal_strlit(" ");
        assert(r@ =~= title_of(*app));
    }
    r
}

/// The hint shown after the editor field that has the cursor.
pub open spec fn hint_for_field(field: EntryField, active: bool) -> Seq<char> {
    if !active {
        Seq::empty()
    } else {
        match field {
            EntryField::Folder => " (e.g. Work/Email, max 3 levels)"@,
            EntryField::TotpSecret => " (base32 secret from authenticator)"@,
            EntryField::Tags => " (comma separated: work, email, dev)"@,
            _ => Seq::empty(),
        }
    }
}

/// The hint shown after an editor field.
pub fn field_hint(field: EntryField, active: bool) -> (r: &'static str)
    ensures
        r@ == hint_for_field(field, active),
{
    proof {
        reveal_strlit("");
    }
    if !active {
        return "";
    }
    match field {
        EntryField::Folder => " (e.g. Work/Email, max 3 levels)",
        EntryField::TotpSecret => " (base32 secret from authenticator)",
        EntryField::Tags => " (comma separated: work, email, dev)",
        _ => "",
    }
}

/// What the editor shows of a field: a hidden password as one `*` per byte,
/// anything else as it is.
pub open spec fn shown_value(a: App, field: EntryField) -> Seq<char> {
    if field == EntryField::Password && !a.show_password {
        Seq::new(crate::handler::byte_len(field_string(a, field)@) as nat, |i: int| '*')
    } else {
        field_string(a, field)@
    }
}

/// What the editor shows of a field (see [`shown_value`]).
pub fn field_display_value(app: &App, field: &EntryField) -> (r: String)
    ensures
        r@ == shown_value(*app, *field),
{
    let value = app.get_field_value(field);
    if *field == EntryField::Password && !app.show_password {
        stars(value.len())
    } else {
        owned(value)
    }
}

/// A row of `n` asterisks, as password inputs are shown.
pub fn stars(n: usize) -> (r: String)
    ensures
        r@ == Seq::new(n as nat, |i: int| '*'),
{
    let mut out: Vec<char> = Vec::new();
    let mut i: usize = 0;
    while i < n
        invariant
            i <= n,
            out@ == Seq::new(i as nat, |k: int| '*'),
        decreases n - i,
    {
        out.push('*');
        i = i + 1;
        assert(out@ =~= Seq::new(i as nat, |k: int| '*'));
    }
    string_from_chars(out.as_slice())
}

/// The title of the editor: new or edit, password or note.
pub open spec fn editor_title_of(a: App) -> Seq<char> {
    " "@ + (if a.edit_is_new { "New"@ } else { "Edit"@ }) + " "@ + (match a.edit_buffer.kind {
        EntryKind::Password => "Password"@,
        EntryKind::Note => "Note"@,
    }) + " "@
}

/// The title of the editor (see [`editor_title_of`]).
pub fn editor_title(app: &App) -> (r: String)
    ensures
        r@ == editor_title_of(*app),
{
    let action = if app.edit_is_new { "New" } else { "Edit" };
    let kind = match app.edit_buffer.kind {
        EntryKind::Password => "Password",
        EntryKind::Note => "Note",
    };
    proof {
        reveal_strlit("New");
        reveal_strlit("Edit");
        reveal_strlit("Password");
        reveal_strlit("Note");
    }
    let a = join3(" ", action, " ");
    join3(a.as_str(), kind, " ")
}

/// The instruction of a step of the password change.
pub open spec fn change_step_label(step: PasswordChangeStep) -> Seq<char> {
    match step {
        PasswordChangeStep::CurrentPassword => "Step 1/3: Enter current password"@,
        PasswordChangeStep::NewPassword => "Step 2/3: Enter new password (min 8 chars)"@,
        PasswordChangeStep::ConfirmPassword => "Step 3/3: Confirm new password"@,
    }
}

/// The instruction of a step of the password change.
pub fn change_step_text(step: PasswordChangeStep) -> (r: &'static str)
    ensures
        r@ == change_step_label(step),
{
    match step {
        PasswordChangeStep::CurrentPassword => "Step 1/3: Enter current password",
        PasswordChangeStep::NewPassword => "Step 2/3: Enter new password (min 8 chars)",
        PasswordChangeStep::ConfirmPassword => "Step 3/3: Confirm new password",
    }
}

/// How far the settings screen scrolls so that the selected line, at
/// `line`, stays in a view `height` lines high (three lines of margin).
pub open spec fn settings_scroll(line: usize, height: usize) -> int {
    if height > 0 && line >= height {
        line - height + 3
    } else {
        0
    }
}

/// The scroll offset of the settings screen (see [`settings_scroll`]).
pub fn settings_scroll_offset(line: usize, height: usize) -> (r: usize)
    requires
        height > 0 && line >= height ==> line - height + 3 <= usize::MAX,
    ensures
        r == settings_scroll(line, height),
{
    if height > 0 && line >= height {
        line - height + 3
    } else {
        0
    }
}

/// What `chrono::DateTime::from_timestamp(t, 0)` formatted with
/// `pattern` gives for a Unix time in UTC, or the empty text when the time
/// is out of chrono's range.
pub uninterp spec fn utc_formatted(t: i64, pattern: Seq<char>) -> Seq<char>;

/// Formats a Unix time in UTC with `chrono::DateTime::from_timestamp` and
/// `format`; a time out of chrono's range gives the empty text. Only the two
/// patterns the interface uses are admitted (an invalid pattern would make
/// the formatting fail). Claimed: the text is the named chrono result.
#[verifier::external_body]
fn format_utc(t: i64, pattern: &str) -> (r: String)
    requires
        pattern@ == "%Y-%m-%d"@ || pattern@ == "%Y-%m-%d %H:%M"@,
    ensures
        r@ == utc_formatted(t, pattern@),
{
    chrono::DateTime::from_timestamp(t, 0).map(|d| d.format(pattern).to_string()).unwrap_or_default()
}

/// The date of a Unix time, `YYYY-MM-DD` in UTC.
pub fn date_text(t: i64) -> (r: String)
    ensures
        r@ == utc_formatted(t, "%Y-%m-%d"@),
{
    format_utc(t, "%Y-%m-%d")
}

/// The date and minute of a Unix time, `YYYY-MM-DD HH:MM` in UTC.
pub fn date_time_text(t: i64) -> (r: String)
    ensures
        r@ == utc_formatted(t, "%Y-%m-%d %H:%M"@),
{
    format_utc(t, "%Y-%m-%d %H:%M")
}

/// How many old passwords the entry view lists.
pub const HISTORY_SHOWN: usize = 5;

/// The old passwords the entry view lists: the newest five, newest first,
/// each with the date it was replaced.
pub fn recent_history(history: &Vec<PasswordHistoryItem>) -> (r: Vec<(String, String)>)
    ensures
        r@.len() == (if history@.len() < HISTORY_SHOWN { history@.len() as int } else { HISTORY_SHOWN as int }),
        forall|i: int| 0 <= i < r@.len() ==> {
            let h = #[trigger] history@[history@.len() - 1 - i];
            &&& r@[i].0@ == utc_formatted(h.changed_at, "%Y-%m-%d"@)
            &&& r@[i].1@ == h.password@
        },
{
    let n = history.len();
    let shown = if n < HISTORY_SHOWN { n } else { HISTORY_SHOWN };
    let mut r: Vec<(String, String)> = Vec::new();
    let mut i: usize = 0;
    while i < shown
        invariant
            n == history@.len(),
            shown <= n,
            i <= shown,
            r@.len() == i,
            forall|k: int| 0 <= k < i ==> {
                let h = #[trigger] history@[n - 1 - k];
                &&& r@[k].0@ == utc_formatted(h.changed_at, "%Y-%m-%d"@)
                &&& r@[k].1@ == h.password@
            },
        decreases shown - i,
    {
        let h = &history[n - 1 - i];
        let date = date_text(h.changed_at);
        let pw = copy_string(&h.password);
        r.push((date, pw));
        i = i + 1;
    }
    r
}

} // verus!
