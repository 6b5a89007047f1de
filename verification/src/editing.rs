//! Changing the vault from the interface: favorites, deleting,
//! duplicating and saving an edited entry.
use vstd::prelude::*;

use crate::text::{chars_eq, chars_of, concat, decimal, decimal_string, copy_string, owned, str_lower, str_upper, string_from_chars, to_lower, to_upper};

use crate::vault::{Entry, EntryView};
use crate::app::{App, InputMode, ListRow, Screen, selected_index, self_selected};
use crate::listing::{list_rebuilt, rows_valid};

verus! {

/// The selected entry marked or unmarked as a favorite.
pub open spec fn favorite_toggled(pre: App, post: App, now: u64) -> bool {
    &&& match selected_index(pre) {
        Some(i) => {
            let fav = !pre.vault@[i as int].favorite;
            &&& list_rebuilt(
                App { vault: post.vault, dirty: true, ..pre },
                App { status_message: pre.status_message, ..post },
            )
            &&& post.vault@ == pre.vault@.update(
                i as int,
                EntryView { favorite: fav, ..pre.vault@[i as int] },
            )
            &&& post.status_message matches Some(m) && m.1 == now && m.0@ == (if fav {
                "Added to favorites"@
            } else {
                "Removed from favorites"@
            })
        },
        None => post == pre,
    }
}

/// The selected entry deleted.
pub open spec fn selected_deleted(pre: App, post: App, now: u64) -> bool {
    &&& match selected_index(pre) {
        Some(i) => {
            &&& list_rebuilt(
                App { vault: post.vault, dirty: true, ..pre },
                App {
                    status_message: pre.status_message,
                    screen: pre.screen,
                    input_mode: pre.input_mode,
                    ..post
                },
            )
            &&& post.vault@ == pre.vault@.remove(i as int)
            &&& post.status_message matches Some(m) && m.1 == now && m.0@ == "Entry deleted"@
        },
        None => post == (App { screen: post.screen, input_mode: post.input_mode, ..pre }),
    }
    &&& post.screen == Screen::List
    &&& post.input_mode == InputMode::Normal
}

/// The selected entry duplicated.
pub open spec fn selected_duplicated(pre: App, post: App, now: u64) -> bool {
    &&& match self_selected(pre) {
        Some(e) => {
            let d = post.vault@.last();
            &&& list_rebuilt(
                App { vault: post.vault, dirty: true, ..pre },
                App { status_message: pre.status_message, ..post },
            )
            &&& post.vault@ == pre.vault@.push(d)
            &&& d == (EntryView {
                id: d.id,
                name: e.name + " (copy)"@,
                created_at: d.created_at,
                modified_at: d.created_at,
                password_history: Seq::empty(),
                ..e
            })
            &&& post.status_message matches Some(m) && m.1 == now && m.0@ == "Entry duplicated"@
        },
        None => post == pre,
    }
}

impl App {
    /// Marks the selected entry as a favorite, or unmarks it, rebuilds the
    /// list and reports it; does nothing when no entry is selected.
    pub fn toggle_favorite(&mut self, now: u64)
        requires
            rows_valid(*old(self)),
        ensures
            match selected_index(*old(self)) {
                Some(i) => {
                    let fav = !old(self).vault@[i as int].favorite;
                    &&& list_rebuilt(
                        App { vault: final(self).vault, dirty: true, ..*old(self) },
                        App { status_message: old(self).status_message, ..*final(self) },
                    )
                    &&& final(self).vault@ == old(self).vault@.update(
                        i as int,
                        EntryView { favorite: fav, ..old(self).vault@[i as int] },
                    )
                    &&& final(self).status_message matches Some(m) && m.1 == now && m.0@ == (if fav {
                        "Added to favorites"@
                    } else {
                        "Removed from favorites"@
                    })
                },
                None => *final(self) == *old(self),
            },
    {
        if let Some(idx) = self.selected_entry_index() {
            proof {
                assert(self.list_rows@[self.selected as int] matches ListRow::Entry(x) ==> x < self.vault.entries@.len());
            }
            let mut e = self.vault.entries[idx].duplicate();
            let fav = !e.favorite;
            e.favorite = fav;
            let ghost before = self.vault.entries@;
            self.vault.entries.set(idx, e);
            proof {
                assert(self.vault@ =~= old(self).vault@.update(idx as int, EntryView { favorite: fav, ..old(self).vault@[idx as int] }));
            }
            self.dirty = true;
            self.update_filter();
            let msg = if fav { owned("Added to favorites") } else { owned("Removed from favorites") };
            self.set_status(msg, now);
        }
    }

    /// Removes the selected entry from the vault (when an entry is
    /// selected), rebuilds the list and reports it; in any case returns to
    /// the list screen.
    #[verifier::rlimit(60)]
    pub fn delete_selected(&mut self, now: u64)
        requires
            rows_valid(*old(self)),
        ensures
            selected_deleted(*old(self), *final(self), now),
    {
        if let Some(idx) = self.selected_entry_index() {
            proof {
                assert(self.list_rows@[self.selected as int] matches ListRow::Entry(x) ==> x < self.vault.entries@.len());
            }
            let _ = self.vault.entries.remove(idx);
            proof {
                assert(self.vault@ =~= old(self).vault@.remove(idx as int));
            }
            self.dirty = true;
            self.update_filter();
            self.set_status(owned("Entry deleted"), now);
        }
        self.screen = Screen::List;
        self.input_mode = InputMode::Normal;
    }

    /// Adds a copy of the selected entry at the end of the vault: a fresh
    /// identifier, " (copy)" after its name, created and changed now, no
    /// password history; rebuilds the list and reports it. Does nothing when
    /// no entry is selected.
    pub fn duplicate_selected(&mut self, now: u64)
        ensures
            selected_duplicated(*old(self), *final(self), now),
    {
        let copy = match self.selected_entry() {
            Some(e) => Some(e.duplicate()),
            None => None,
        };
        if let Some(mut dup) = copy {
            dup.id = crate::vault::new_entry_id();
            dup.name = concat(dup.name.as_str(), " (copy)");
            let ts = crate::vault::current_timestamp();
            dup.created_at = ts;
            dup.modified_at = ts;
            dup.password_history = Vec::new();
            let ghost d = dup@;
            proof {
                assert(crate::vault::history_views(dup.password_history@) =~= Seq::<crate::vault::HistoryView>::empty());
            }
            self.vault.entries.push(dup);
            proof {
                assert(self.vault@ =~= old(self).vault@.push(d));
            }
            self.dirty = true;
            self.update_filter();
            self.set_status(owned("Entry duplicated"), now);
        }
    }
}

} // verus!

verus! {

/// Deepest folder nesting an entry may have.
pub const MAX_FOLDER_DEPTH: usize = 3;

/// How many folders deep a path is: none for the root, one more than its `/` count otherwise.
pub open spec fn folder_depth(f: Seq<char>) -> nat {
    if f.len() == 0 {
        0
    } else {
        crate::text::count_char(f, '/') + 1
    }
}

/// A TOTP secret as stored: trimmed, spaces and hyphens removed, upper case.
pub open spec fn clean_totp(s: Seq<char>) -> Seq<char> {
    str_upper(crate::totp::without_separators(crate::text::trim_ws(s)))
}

/// The last `n` elements (all of them when there are no more than `n`).
pub open spec fn keep_last<T>(s: Seq<T>, n: nat) -> Seq<T> {
    if s.len() > n {
        s.skip(s.len() - n)
    } else {
        s
    }
}

/// The password history the edited entry gets: when an existing entry's
/// non-empty password is replaced by a different one, the old password
/// (with the time of the entry's last change) is added, and only the last
/// ten are kept.
pub open spec fn history_after_edit(a: App) -> Seq<crate::vault::HistoryView> {
    let e = a.edit_buffer@;
    if !a.edit_is_new && selected_index(a) is Some {
        let old_e = a.vault@[selected_index(a)->0 as int];
        if old_e.password.len() > 0 && old_e.password != e.password {
            keep_last(
                e.password_history.push(crate::vault::HistoryView { password: old_e.password, changed_at: old_e.modified_at }),
                crate::vault::MAX_PASSWORD_HISTORY as nat,
            )
        } else {
            e.password_history
        }
    } else {
        e.password_history
    }
}

/// The entry the editor saves, changed at time `t`: folder without leading
/// or trailing `/`, tags parsed from the tag field, TOTP secret cleaned,
/// password history updated.
pub open spec fn edited_entry(a: App, t: i64) -> EntryView {
    EntryView {
        folder: crate::text::trim_slashes(a.edit_buffer@.folder),
        tags: crate::text::parse_tags(a.edit_tags_buffer@),
        totp_secret: clean_totp(a.edit_buffer@.totp_secret),
        password_history: history_after_edit(a),
        modified_at: t,
        ..a.edit_buffer@
    }
}

/// Another entry with the same username and URL, ignoring case.
pub open spec fn same_login(x: EntryView, e: EntryView) -> bool {
    x.id != e.id && x.username.len() > 0 && x.url.len() > 0 && str_lower(x.username) == str_lower(e.username)
        && str_lower(x.url) == str_lower(e.url)
}

/// How many other entries have the same username and URL.
pub open spec fn duplicate_count(v: Seq<EntryView>, e: EntryView) -> nat {
    v.filter(|x: EntryView| same_login(x, e)).len()
}

/// The warning given on save when other entries have the same username and URL.
pub open spec fn duplicate_warning(v: Seq<EntryView>, e: EntryView) -> Option<Seq<char>> {
    if e.username.len() == 0 || e.url.len() == 0 || duplicate_count(v, e) == 0 {
        None
    } else {
        Some("duplicate user+url found in "@ + decimal(duplicate_count(v, e)) + " other entries"@)
    }
}

/// The status after a save.
pub open spec fn saved_message(w: Option<Seq<char>>) -> Seq<char> {
    match w {
        Some(w) => "Saved (warning: "@ + w + ")"@,
        None => "Entry saved"@,
    }
}

/// The vault after saving an entry: added when it is new, else put in
/// place of the selected entry.
pub open spec fn saved_vault(a: App, e: EntryView) -> Seq<EntryView> {
    if a.edit_is_new {
        a.vault@.push(e)
    } else {
        match selected_index(a) {
            Some(i) => a.vault@.update(i as int, e),
            None => a.vault@,
        }
    }
}

pub(crate) proof fn lemma_filter_push<T>(s: Seq<T>, x: T, p: spec_fn(T) -> bool)
    ensures
        s.push(x).filter(p) == if p(x) {
            s.filter(p).push(x)
        } else {
            s.filter(p)
        },
{
    reveal(Seq::filter);
    assert(s.push(x).drop_last() =~= s);
}

impl App {
    /// How many entries share the edited entry's username and URL, with the
    /// warning to give; `None` when there are none, or the username or URL is empty.
    fn check_duplicate_on_save(&self) -> (r: Option<String>)
        ensures
            match r {
                Some(w) => duplicate_warning(self.vault@, self.edit_buffer@) == Some(w@),
                None => duplicate_warning(self.vault@, self.edit_buffer@) is None,
            },
    {
        if self.edit_buffer.username.as_str().is_empty() || self.edit_buffer.url.as_str().is_empty() {
            return None;
        }
        let ghost e = self.edit_buffer@;
        let ghost v = self.vault@;
        let user = chars_of(to_lower(self.edit_buffer.username.as_str()).as_str());
        let url = chars_of(to_lower(self.edit_buffer.url.as_str()).as_str());
        let mut count: usize = 0;
        let mut i: usize = 0;
        while i < self.vault.entries.len()
            invariant
                e == self.edit_buffer@,
                v == self.vault@,
                user@ == str_lower(e.username),
                url@ == str_lower(e.url),
                i <= v.len(),
                count == v.take(i as int).filter(|x: EntryView| same_login(x, e)).len(),
                count <= i,
            decreases v.len() - i,
        {
            let x = &self.vault.entries[i];
            proof {
                assert(v[i as int] == x@);
                assert(v.take(i + 1) =~= v.take(i as int).push(x@));
                lemma_filter_push(v.take(i as int), x@, |y: EntryView| same_login(y, e));
            }
            let matches = x.id != self.edit_buffer.id && !x.username.as_str().is_empty() && !x.url.as_str().is_empty()
                && chars_eq(&chars_of(to_lower(x.username.as_str()).as_str()), &user) && chars_eq(
                &chars_of(to_lower(x.url.as_str()).as_str()),
                &url,
            );
            if matches {
                count = count + 1;
            }
            i = i + 1;
        }
        proof {
            assert(v.take(v.len() as int) =~= v);
        }
        if count > 0 {
            let head = concat("duplicate user+url found in ", decimal_string(count as u64).as_str());
            Some(concat(head.as_str(), " other entries"))
        } else {
            None
        }
    }
}

} // verus!

verus! {

/// Drops the oldest history items until at most ten remain.
pub(crate) fn trim_history(h: &mut Vec<crate::vault::PasswordHistoryItem>)
    ensures
        crate::vault::history_views(final(h)@) == keep_last(
            crate::vault::history_views(old(h)@),
            crate::vault::MAX_PASSWORD_HISTORY as nat,
        ),
{
    let ghost full = crate::vault::history_views(h@);
    assert(full.skip(0) =~= full);
    let ghost mut k: int = 0;
    while h.len() > crate::vault::MAX_PASSWORD_HISTORY
        invariant
            full.len() == old(h)@.len(),
            crate::vault::history_views(h@) == full.skip(k),
            full == crate::vault::history_views(old(h)@),
            0 <= k <= full.len(),
            k > 0 ==> full.len() - k >= crate::vault::MAX_PASSWORD_HISTORY,
        decreases h@.len(),
    {
        let ghost before = h@;
        assert(crate::vault::history_views(h@).len() == h@.len());
        let _ = h.remove(0);
        proof {
            assert(h@ == before.remove(0));
            assert forall|j: int| 0 <= j < h@.len() implies crate::vault::history_views(h@)[j] == full.skip(k + 1)[j] by {
                assert(h@[j] == before[j + 1]);
                assert(crate::vault::history_views(before)[j + 1] == before[j + 1]@);
                assert(full.skip(k)[j + 1] == full[k + j + 1]);
            }
            assert(crate::vault::history_views(h@) =~= full.skip(k + 1));
            k = k + 1;
        }
    }
    proof {
        assert(crate::vault::history_views(h@).len() == h@.len());
        if full.len() > crate::vault::MAX_PASSWORD_HISTORY {
            assert(k == full.len() - crate::vault::MAX_PASSWORD_HISTORY);
        } else {
            assert(k == 0);
        }
    }
}

impl App {
    /// Cleans the fields of the entry being edited: the folder loses leading
    /// and trailing `/`, the tags are parsed from the tag field, the TOTP
    /// secret is trimmed, stripped of spaces and hyphens and upper-cased.
    fn clean_edit_buffer(&mut self)
        ensures
            *final(self) == (App { edit_buffer: final(self).edit_buffer, ..*old(self) }),
            final(self).edit_buffer@ == (EntryView {
                folder: crate::text::trim_slashes(old(self).edit_buffer@.folder),
                tags: crate::text::parse_tags(old(self).edit_tags_buffer@),
                totp_secret: clean_totp(old(self).edit_buffer@.totp_secret),
                ..old(self).edit_buffer@
            }),
    {
        let folder = chars_of(self.edit_buffer.folder.as_str());
        let trimmed = crate::text::trim_chars(&folder, true);
        self.edit_buffer.folder = string_from_chars(trimmed.as_slice());
        self.edit_buffer.tags = crate::text::parse_tag_list(self.edit_tags_buffer.as_str());
        let totp = chars_of(self.edit_buffer.totp_secret.as_str());
        let t = crate::text::trim_chars(&totp, false);
        let s = crate::totp::strip_separators(&t);
        let joined = string_from_chars(s.as_slice());
        self.edit_buffer.totp_secret = to_upper(joined.as_str());
    }

    /// Adds the replaced password of an existing entry to the history of
    /// the entry being edited, keeping the last ten.
    fn record_password_history(&mut self)
        requires
            rows_valid(*old(self)),
        ensures
            *final(self) == (App { edit_buffer: final(self).edit_buffer, ..*old(self) }),
            final(self).edit_buffer@ == (EntryView {
                password_history: history_after_edit(*old(self)),
                ..old(self).edit_buffer@
            }),
    {
        if self.edit_is_new {
            return;
        }
        if let Some(idx) = self.selected_entry_index() {
            proof {
                assert(self.list_rows@[self.selected as int] matches ListRow::Entry(x) ==> x < self.vault.entries@.len());
                assert(self.vault@[idx as int] == self.vault.entries@[idx as int]@);
            }
            let old_pw = copy_string(&self.vault.entries[idx].password);
            let changed_at = self.vault.entries[idx].modified_at;
            if !old_pw.as_str().is_empty() && !(old_pw == self.edit_buffer.password) {
                let ghost full = self.edit_buffer@.password_history.push(
                    crate::vault::HistoryView { password: old_pw@, changed_at: changed_at },
                );
                self.edit_buffer.password_history.push(crate::vault::PasswordHistoryItem { password: old_pw, changed_at });
                proof {
                    assert(crate::vault::history_views(self.edit_buffer.password_history@) =~= full);
                }
                trim_history(&mut self.edit_buffer.password_history);
            }
        }
    }
}

} // verus!

verus! {

/// The entry being edited saved.
pub open spec fn edit_saved(pre: App, post: App, now: u64) -> bool {
    &&& folder_depth(pre.edit_buffer.folder@) > MAX_FOLDER_DEPTH ==> post == (App {
        status_message: post.status_message,
        ..pre
    }) && (post.status_message matches Some(m) && m.0@ == "Folder depth limited to 3 levels"@ && m.1
        == now)
    &&& folder_depth(pre.edit_buffer.folder@) <= MAX_FOLDER_DEPTH ==> {
        let e = edited_entry(pre, post.edit_buffer.modified_at);
        &&& post.edit_buffer@ == e
        &&& post.vault@ == saved_vault(pre, e)
        &&& list_rebuilt(
            App {
                vault: post.vault,
                edit_buffer: post.edit_buffer,
                dirty: true,
                screen: Screen::List,
                input_mode: InputMode::Normal,
                ..pre
            },
            App { status_message: pre.status_message, ..post },
        )
        &&& post.status_message matches Some(m) && m.1 == now && m.0@ == saved_message(
            duplicate_warning(pre.vault@, e),
        )
    }
}

impl App {
    /// Cleans the entry being edited, records a replaced password and
    /// stamps it as changed now.
    fn prepare_edited(&mut self)
        requires
            rows_valid(*old(self)),
        ensures
            *final(self) == (App { edit_buffer: final(self).edit_buffer, ..*old(self) }),
            final(self).edit_buffer@ == edited_entry(*old(self), final(self).edit_buffer.modified_at),
    {
        let ghost start = *self;
        self.clean_edit_buffer();
        self.record_password_history();
        proof {
            assert(history_after_edit(start) == history_after_edit(*old(self)));
        }
        self.edit_buffer.modified_at = crate::vault::current_timestamp();
    }

    /// Puts a copy of the entry being edited into the vault: at the end when
    /// it is new, else in place of the selected entry.
    fn store_edited(&mut self)
        requires
            rows_valid(*old(self)),
        ensures
            *final(self) == (App { vault: final(self).vault, ..*old(self) }),
            final(self).vault@ == saved_vault(*old(self), old(self).edit_buffer@),
    {
        let ghost e = self.edit_buffer@;
        let stored = self.edit_buffer.duplicate();
        if self.edit_is_new {
            self.vault.entries.push(stored);
            proof {
                assert(self.vault@ =~= old(self).vault@.push(e));
            }
        } else if let Some(idx) = self.selected_entry_index() {
            proof {
                assert(old(self).list_rows@[old(self).selected as int] matches ListRow::Entry(x) ==> x < old(self).vault.entries@.len());
            }
            self.vault.entries.set(idx, stored);
            proof {
                assert(self.vault@ =~= old(self).vault@.update(idx as int, e));
            }
        }
    }

    /// Saves the entry being edited, changed now: a folder nested deeper
    /// than three levels is refused with a message; otherwise the cleaned
    /// entry (see [`edited_entry`]) is added to the vault when new, or
    /// replaces the selected entry, the list is rebuilt, and the status says
    /// it was saved, with a warning when other entries share its username
    /// and URL.
    #[verifier::rlimit(100)]
    #[verifier::spinoff_prover]
    pub fn save_edit(&mut self, now: u64)
        requires
            rows_valid(*old(self)),
        ensures
            folder_depth(old(self).edit_buffer.folder@) > MAX_FOLDER_DEPTH ==> *final(self) == (App {
                status_message: final(self).status_message,
                ..*old(self)
            }) && (final(self).status_message matches Some(m) && m.0@ == "Folder depth limited to 3 levels"@ && m.1
                == now),
            folder_depth(old(self).edit_buffer.folder@) <= MAX_FOLDER_DEPTH ==> {
                let e = edited_entry(*old(self), final(self).edit_buffer.modified_at);
                &&& final(self).edit_buffer@ == e
                &&& final(self).vault@ == saved_vault(*old(self), e)
                &&& list_rebuilt(
                    App {
                        vault: final(self).vault,
                        edit_buffer: final(self).edit_buffer,
                        dirty: true,
                        screen: Screen::List,
                        input_mode: InputMode::Normal,
                        ..*old(self)
                    },
                    App { status_message: old(self).status_message, ..*final(self) },
                )
                &&& final(self).status_message matches Some(m) && m.1 == now && m.0@ == saved_message(
                    duplicate_warning(old(self).vault@, e),
                )
            },
    {
        let folder = chars_of(self.edit_buffer.folder.as_str());
        let too_deep = folder.len() > 0 && crate::text::count_chars(&folder, '/') >= MAX_FOLDER_DEPTH;
        if too_deep {
            self.set_status(owned("Folder depth limited to 3 levels"), now);
            return;
        }
        self.prepare_edited();
        let ghost e = self.edit_buffer@;
        let ghost prepared = *self;
        let warning = self.check_duplicate_on_save();
        self.store_edited();
        proof {
            assert(saved_vault(prepared, e) == saved_vault(*old(self), e));
        }
        self.dirty = true;
        self.screen = Screen::List;
        self.input_mode = InputMode::Normal;
        let ghost pre_filter = *self;
        proof {
            assert(pre_filter == (App {
                vault: pre_filter.vault,
                edit_buffer: pre_filter.edit_buffer,
                dirty: true,
                screen: Screen::List,
                input_mode: InputMode::Normal,
                ..*old(self)
            }));
        }
        self.update_filter();
        let ghost post_filter = *self;
        let msg = match warning {
            Some(w) => {
                let head = concat("Saved (warning: ", w.as_str());
                concat(head.as_str(), ")")
            },
            None => owned("Entry saved"),
        };
        self.set_status(msg, now);
        proof {
            assert(post_filter == (App { status_message: old(self).status_message, ..*self }));
        }
    }
}

/// The password history only records a replaced password: saving a new
/// entry, an entry whose stored password is empty, or an entry whose
/// password did not change leaves the history as it was. When an existing
/// entry's non-empty password is replaced by a different one, the old
/// password with the time of the entry's last change becomes the newest
/// item, after the most recent earlier items, keeping at most ten.
pub proof fn law_history_records_only_replacements(a: App)
    requires
        a.edit_buffer@.password_history.len() <= crate::vault::MAX_PASSWORD_HISTORY,
    ensures
        a.edit_is_new ==> history_after_edit(a) == a.edit_buffer@.password_history,
        selected_index(a) is None ==> history_after_edit(a) == a.edit_buffer@.password_history,
        !a.edit_is_new && selected_index(a) is Some ==> {
            let old_e = a.vault@[selected_index(a)->0 as int];
            let h = a.edit_buffer@.password_history;
            let r = history_after_edit(a);
            &&& old_e.password == a.edit_buffer@.password ==> r == h
            &&& old_e.password.len() == 0 ==> r == h
            &&& old_e.password.len() > 0 && old_e.password != a.edit_buffer@.password ==> {
                &&& r.len() == (if h.len() < crate::vault::MAX_PASSWORD_HISTORY { (h.len() + 1) as int } else {
                    crate::vault::MAX_PASSWORD_HISTORY as int
                })
                &&& r.last() == (crate::vault::HistoryView { password: old_e.password, changed_at: old_e.modified_at })
                &&& forall|k: int| 0 <= k < r.len() - 1 ==> #[trigger] r[k] == h[h.len() - (r.len() - 1) + k]
            }
        },
{
    if !a.edit_is_new && selected_index(a) is Some {
        let old_e = a.vault@[selected_index(a)->0 as int];
        let h = a.edit_buffer@.password_history;
        let item = crate::vault::HistoryView { password: old_e.password, changed_at: old_e.modified_at };
        let p = h.push(item);
        if old_e.password.len() > 0 && old_e.password != a.edit_buffer@.password {
            let r = history_after_edit(a);
            assert(r == keep_last(p, crate::vault::MAX_PASSWORD_HISTORY as nat));
            assert forall|k: int| 0 <= k < r.len() - 1 implies #[trigger] r[k] == h[h.len() - (r.len() - 1) + k] by {
                if p.len() > crate::vault::MAX_PASSWORD_HISTORY {
                    assert(r[k] == p[p.len() - crate::vault::MAX_PASSWORD_HISTORY + k]);
                } else {
                    assert(r[k] == p[k]);
                }
            }
        }
    }
}

/// Saving an edit keeps at most ten old passwords, and a replaced
/// password of an existing entry becomes the newest of them.
pub proof fn law_history_stays_bounded(a: App, t: i64)
    requires
        a.edit_buffer@.password_history.len() <= crate::vault::MAX_PASSWORD_HISTORY,
    ensures
        edited_entry(a, t).password_history.len() <= crate::vault::MAX_PASSWORD_HISTORY,
        !a.edit_is_new && selected_index(a) is Some ==> {
            let old_e = a.vault@[selected_index(a)->0 as int];
            old_e.password.len() > 0 && old_e.password != a.edit_buffer@.password ==> edited_entry(a, t).password_history.last()
                == (crate::vault::HistoryView { password: old_e.password, changed_at: old_e.modified_at })
        },
{
}

} // verus!
