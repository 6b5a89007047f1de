//! User settings: auto-lock, clipboard clearing, backups, theme and the
//! default generated-password length, with the cycles the settings screen
//! steps through.
use vstd::prelude::*;
use crate::text::{owned, str_eq};
use crate::theme::{theme_option, theme_options, THEME_COUNT};
use crate::vault::{home_dir, join_path, path_join, vault_dir_in};

verus! {

/// The settings, as stored in `config.toml`.
#[derive(Clone, Debug)]
pub struct Config {
    /// Seconds of inactivity before the vault locks; 0 turns locking off.
    pub auto_lock_seconds: u64,
    /// Seconds after a copy before the clipboard is cleared; 0 turns it off.
    pub clipboard_clear_seconds: u64,
    /// Whether the previous vault file is kept as a backup on save.
    pub backup_enabled: bool,
    /// The theme's name.
    pub theme: String,
    /// The length the password generator starts from.
    pub default_gen_length: usize,
}

/// Default auto-lock timeout: five minutes.
pub fn default_auto_lock() -> (r: u64)
    ensures
        r == 300,
{
    300
}

/// Default clipboard clearing delay: thirty seconds.
pub fn default_clipboard_clear() -> (r: u64)
    ensures
        r == 30,
{
    30
}

/// Backups are on by default.
pub fn default_true() -> (r: bool)
    ensures
        r,
{
    true
}

/// The default theme: "dark".
pub fn default_theme() -> (r: String)
    ensures
        r@ == "dark"@,
{
    owned("dark")
}

/// Default generated-password length: twenty characters.
pub fn default_gen_length() -> (r: usize)
    ensures
        r == 20,
{
    20
}

/// Shortest generated password the settings allow.
pub const MIN_GEN_LENGTH: usize = 4;

/// Longest generated password the settings allow.
pub const MAX_GEN_LENGTH: usize = 128;

/// The auto-lock timeouts offered, in seconds.
pub open spec fn auto_lock_values() -> Seq<u64> {
    seq![0, 60, 120, 300, 600, 900, 1800]
}

/// Their labels.
pub open spec fn auto_lock_labels() -> Seq<Seq<char>> {
    seq!["Off"@, "1 min"@, "2 min"@, "5 min"@, "10 min"@, "15 min"@, "30 min"@]
}

/// How many auto-lock timeouts are offered.
pub const AUTO_LOCK_COUNT: usize = 7;

/// The clipboard clearing delays offered, in seconds.
pub open spec fn clipboard_clear_values() -> Seq<u64> {
    seq![0, 10, 15, 30, 60]
}

/// Their labels.
pub open spec fn clipboard_clear_labels() -> Seq<Seq<char>> {
    seq!["Off"@, "10s"@, "15s"@, "30s"@, "60s"@]
}

/// How many clipboard clearing delays are offered.
pub const CLIPBOARD_CLEAR_COUNT: usize = 5;

/// The auto-lock option at a position: its seconds and its label.
pub fn auto_lock_option(i: usize) -> (r: (u64, &'static str))
    requires
        i < AUTO_LOCK_COUNT,
    ensures
        r.0 == auto_lock_values()[i as int],
        r.1@ == auto_lock_labels()[i as int],
{
    if i == 0 {
        (0, "Off")
    } else if i == 1 {
        (60, "1 min")
    } else if i == 2 {
        (120, "2 min")
    } else if i == 3 {
        (300, "5 min")
    } else if i == 4 {
        (600, "10 min")
    } else if i == 5 {
        (900, "15 min")
    } else {
        (1800, "30 min")
    }
}

/// The clipboard clearing option at a position: its seconds and its label.
pub fn clipboard_clear_option(i: usize) -> (r: (u64, &'static str))
    requires
        i < CLIPBOARD_CLEAR_COUNT,
    ensures
        r.0 == clipboard_clear_values()[i as int],
        r.1@ == clipboard_clear_labels()[i as int],
{
    if i == 0 {
        (0, "Off")
    } else if i == 1 {
        (10, "10s")
    } else if i == 2 {
        (15, "15s")
    } else if i == 3 {
        (30, "30s")
    } else {
        (60, "60s")
    }
}

/// The position of the first occurrence of a value, if any.
pub open spec fn position_of<T>(s: Seq<T>, v: T) -> Option<int> {
    if exists|i: int| 0 <= i < s.len() && s[i] == v {
        Some(choose|i: int| 0 <= i < s.len() && s[i] == v && forall|j: int| 0 <= j < i ==> s[j] != v)
    } else {
        None
    }
}

/// The label of a value among options: its own label, or "Custom" when it
/// is not one of them.
pub open spec fn option_label(values: Seq<u64>, labels: Seq<Seq<char>>, v: u64) -> Seq<char> {
    match position_of(values, v) {
        Some(i) => labels[i],
        None => "Custom"@,
    }
}

/// The next position in a cycle of `n` options, forward or backward, from
/// the position of the current value (the first, when it is not one of them).
pub open spec fn cycle_step(pos: Option<int>, n: int, forward: bool) -> int {
    let idx = match pos {
        Some(i) => i,
        None => 0,
    };
    if forward {
        (idx + 1) % n
    } else {
        (idx + n - 1) % n
    }
}

pub(crate) proof fn lemma_first_position<T>(s: Seq<T>, v: T, i: int)
    requires
        0 <= i < s.len(),
        s[i] == v,
        forall|j: int| 0 <= j < i ==> s[j] != v,
    ensures
        position_of(s, v) == Some(i),
{
    let k = choose|k: int| 0 <= k < s.len() && s[k] == v && forall|j: int| 0 <= j < k ==> s[j] != v;
    assert(0 <= k < s.len() && s[k] == v && forall|j: int| 0 <= j < k ==> s[j] != v);
    if k < i {
        assert(s[k] != v);
    }
    if i < k {
        assert(s[i] != v);
    }
}

/// The values of the auto-lock options are pairwise different.
proof fn lemma_auto_lock_distinct()
    ensures
        forall|i: int, j: int| 0 <= i < j < 7 ==> auto_lock_values()[i] != auto_lock_values()[j],
{
}

/// The values of the clipboard options are pairwise different.
proof fn lemma_clipboard_distinct()
    ensures
        forall|i: int, j: int| 0 <= i < j < 5 ==> clipboard_clear_values()[i] != clipboard_clear_values()[j],
{
}

fn auto_lock_position(v: u64) -> (r: Option<usize>)
    ensures
        match r {
            Some(i) => position_of(auto_lock_values(), v) == Some(i as int) && i < AUTO_LOCK_COUNT,
            None => position_of(auto_lock_values(), v) is None,
        },
{
    let mut i: usize = 0;
    while i < AUTO_LOCK_COUNT
        invariant
            i <= AUTO_LOCK_COUNT,
            forall|j: int| 0 <= j < i ==> auto_lock_values()[j] != v,
        decreases AUTO_LOCK_COUNT - i,
    {
        let (value, _) = auto_lock_option(i);
        if value == v {
            proof {
                lemma_first_position(auto_lock_values(), v, i as int);
            }
            return Some(i);
        }
        i = i + 1;
    }
    None
}

fn clipboard_clear_position(v: u64) -> (r: Option<usize>)
    ensures
        match r {
            Some(i) => position_of(clipboard_clear_values(), v) == Some(i as int) && i < CLIPBOARD_CLEAR_COUNT,
            None => position_of(clipboard_clear_values(), v) is None,
        },
{
    let mut i: usize = 0;
    while i < CLIPBOARD_CLEAR_COUNT
        invariant
            i <= CLIPBOARD_CLEAR_COUNT,
            forall|j: int| 0 <= j < i ==> clipboard_clear_values()[j] != v,
        decreases CLIPBOARD_CLEAR_COUNT - i,
    {
        let (value, _) = clipboard_clear_option(i);
        if value == v {
            proof {
                lemma_first_position(clipboard_clear_values(), v, i as int);
            }
            return Some(i);
        }
        i = i + 1;
    }
    None
}

fn theme_position(name: &str) -> (r: Option<usize>)
    ensures
        match r {
            Some(i) => position_of(theme_options(), name@) == Some(i as int) && i < THEME_COUNT,
            None => position_of(theme_options(), name@) is None,
        },
{
    let mut i: usize = 0;
    while i < THEME_COUNT
        invariant
            i <= THEME_COUNT,
            forall|j: int| 0 <= j < i ==> theme_options()[j] != name@,
        decreases THEME_COUNT - i,
    {
        if str_eq(theme_option(i), name) {
            proof {
                lemma_first_position(theme_options(), name@, i as int);
            }
            return Some(i);
        }
        i = i + 1;
    }
    None
}

fn cycle_index(pos: Option<usize>, n: usize, forward: bool) -> (r: usize)
    requires
        1 <= n <= 100,
        pos matches Some(i) ==> i < n,
    ensures
        r as int == cycle_step(
            match pos {
                Some(i) => Some(i as int),
                None => None,
            },
            n as int,
            forward,
        ),
        r < n,
{
    let idx = match pos {
        Some(i) => i,
        None => 0,
    };
    if forward {
        (idx + 1) % n
    } else {
        (idx + n - 1) % n
    }
}

impl Default for Config {
    /// Five-minute auto-lock, thirty-second clipboard clearing, backups on,
    /// the dark theme and twenty-character passwords.
    fn default() -> (c: Self)
        ensures
            c.auto_lock_seconds == 300,
            c.clipboard_clear_seconds == 30,
            c.backup_enabled,
            c.theme@ == "dark"@,
            c.default_gen_length == 20,
    {
        Config {
            auto_lock_seconds: default_auto_lock(),
            clipboard_clear_seconds: default_clipboard_clear(),
            backup_enabled: default_true(),
            theme: default_theme(),
            default_gen_length: default_gen_length(),
        }
    }
}

impl Config {
    /// The label of the auto-lock timeout, or "Custom" for a value not offered.
    pub fn auto_lock_label(&self) -> (r: &'static str)
        ensures
            r@ == option_label(auto_lock_values(), auto_lock_labels(), self.auto_lock_seconds),
    {
        match auto_lock_position(self.auto_lock_seconds) {
            Some(i) => auto_lock_option(i).1,
            None => "Custom",
        }
    }

    /// The label of the clipboard clearing delay, or "Custom" for a value not offered.
    pub fn clipboard_clear_label(&self) -> (r: &'static str)
        ensures
            r@ == option_label(clipboard_clear_values(), clipboard_clear_labels(), self.clipboard_clear_seconds),
    {
        match clipboard_clear_position(self.clipboard_clear_seconds) {
            Some(i) => clipboard_clear_option(i).1,
            None => "Custom",
        }
    }

    /// Steps the auto-lock timeout to the next (or previous) offered value,
    /// wrapping around; a value not offered counts as the first.
    pub fn cycle_auto_lock(&mut self, forward: bool)
        ensures
            final(self).auto_lock_seconds == auto_lock_values()[cycle_step(
                position_of(auto_lock_values(), old(self).auto_lock_seconds),
                AUTO_LOCK_COUNT as int,
                forward,
            )],
            final(self).clipboard_clear_seconds == old(self).clipboard_clear_seconds,
            final(self).backup_enabled == old(self).backup_enabled,
            final(self).theme == old(self).theme,
            final(self).default_gen_length == old(self).default_gen_length,
    {
        let pos = auto_lock_position(self.auto_lock_seconds);
        let i = cycle_index(pos, AUTO_LOCK_COUNT, forward);
        self.auto_lock_seconds = auto_lock_option(i).0;
    }

    /// Steps the clipboard clearing delay to the next (or previous) offered
    /// value, wrapping around; a value not offered counts as the first.
    pub fn cycle_clipboard_clear(&mut self, forward: bool)
        ensures
            final(self).clipboard_clear_seconds == clipboard_clear_values()[cycle_step(
                position_of(clipboard_clear_values(), old(self).clipboard_clear_seconds),
                CLIPBOARD_CLEAR_COUNT as int,
                forward,
            )],
            final(self).auto_lock_seconds == old(self).auto_lock_seconds,
            final(self).backup_enabled == old(self).backup_enabled,
            final(self).theme == old(self).theme,
            final(self).default_gen_length == old(self).default_gen_length,
    {
        let pos = clipboard_clear_position(self.clipboard_clear_seconds);
        let i = cycle_index(pos, CLIPBOARD_CLEAR_COUNT, forward);
        self.clipboard_clear_seconds = clipboard_clear_option(i).0;
    }

    /// Switches to the next theme name; an unknown name counts as the first.
    pub fn cycle_theme(&mut self)
        ensures
            final(self).theme@ == theme_options()[cycle_step(
                position_of(theme_options(), old(self).theme@),
                THEME_COUNT as int,
                true,
            )],
            final(self).auto_lock_seconds == old(self).auto_lock_seconds,
            final(self).clipboard_clear_seconds == old(self).clipboard_clear_seconds,
            final(self).backup_enabled == old(self).backup_enabled,
            final(self).default_gen_length == old(self).default_gen_length,
    {
        let pos = theme_position(self.theme.as_str());
        let i = cycle_index(pos, THEME_COUNT, true);
        self.theme = owned(theme_option(i));
    }

    /// Lengthens (up to 128) or shortens (down to 4) the default
    /// generated-password length by one.
    pub fn adjust_gen_length(&mut self, forward: bool)
        requires
            forward ==> old(self).default_gen_length < usize::MAX,
        ensures
            final(self).default_gen_length == if forward {
                if old(self).default_gen_length + 1 < MAX_GEN_LENGTH {
                    old(self).default_gen_length + 1
                } else {
                    MAX_GEN_LENGTH as int
                }
            } else {
                if old(self).default_gen_length > 0 && old(self).default_gen_length - 1 > MIN_GEN_LENGTH {
                    old(self).default_gen_length - 1
                } else {
                    MIN_GEN_LENGTH as int
                }
            },
            final(self).auto_lock_seconds == old(self).auto_lock_seconds,
            final(self).clipboard_clear_seconds == old(self).clipboard_clear_seconds,
            final(self).backup_enabled == old(self).backup_enabled,
            final(self).theme == old(self).theme,
    {
        if forward {
            let next = self.default_gen_length + 1;
            self.default_gen_length = if next < MAX_GEN_LENGTH { next } else { MAX_GEN_LENGTH };
        } else {
            let prev = if self.default_gen_length > 0 { self.default_gen_length - 1 } else { 0 };
            self.default_gen_length = if prev > MIN_GEN_LENGTH { prev } else { MIN_GEN_LENGTH };
        }
    }
}

} // verus!

verus! {

/// Stepping the auto-lock timeout forward and then back (or back and then
/// forward) returns to the value it started from, when that value is one of
/// the offered ones.
pub proof fn law_auto_lock_cycle_round_trip(v: u64, forward: bool)
    requires
        auto_lock_values().contains(v),
    ensures
        auto_lock_values()[cycle_step(
            position_of(
                auto_lock_values(),
                auto_lock_values()[cycle_step(position_of(auto_lock_values(), v), 7, forward)],
            ),
            7,
            !forward,
        )] == v,
{
    let s = auto_lock_values();
    lemma_auto_lock_distinct();
    let i = choose|i: int| 0 <= i < s.len() && s[i] == v;
    lemma_first_position(s, v, i);
    let k = cycle_step(Some(i), 7, forward);
    lemma_first_position(s, s[k], k);
}

/// Stepping the clipboard clearing delay forward and then back (or back and
/// then forward) returns to the value it started from, when that value is one
/// of the offered ones.
pub proof fn law_clipboard_clear_cycle_round_trip(v: u64, forward: bool)
    requires
        clipboard_clear_values().contains(v),
    ensures
        clipboard_clear_values()[cycle_step(
            position_of(
                clipboard_clear_values(),
                clipboard_clear_values()[cycle_step(position_of(clipboard_clear_values(), v), 5, forward)],
            ),
            5,
            !forward,
        )] == v,
{
    let s = clipboard_clear_values();
    lemma_clipboard_distinct();
    let i = choose|i: int| 0 <= i < s.len() && s[i] == v;
    lemma_first_position(s, v, i);
    let k = cycle_step(Some(i), 5, forward);
    lemma_first_position(s, s[k], k);
}

/// Switching the theme twice returns to the theme one started from, when it
/// is one of the known themes; the cycle always lands on a known theme.
pub proof fn law_theme_cycle_period_two(name: Seq<char>)
    ensures
        theme_options().contains(theme_options()[cycle_step(position_of(theme_options(), name), 2, true)]),
        theme_options().contains(name) ==> theme_options()[cycle_step(
            position_of(theme_options(), theme_options()[cycle_step(position_of(theme_options(), name), 2, true)]),
            2,
            true,
        )] == name,
{
    let s = theme_options();
    reveal_strlit("dark");
    reveal_strlit("light");
    assert(s[0].len() == 4 && s[1].len() == 5);
    assert(s[0] != s[1]);
    let k = cycle_step(position_of(s, name), 2, true);
    assert(s[k] == s[k]);
    if s.contains(name) {
        let i = choose|i: int| 0 <= i < s.len() && s[i] == name;
        lemma_first_position(s, name, i);
        lemma_first_position(s, s[k], k);
    }
}

/// Adjusting the default generated-password length keeps it within 4 to 128
/// when it starts there.
pub proof fn law_gen_length_stays_in_bounds(len: int, forward: bool)
    requires
        MIN_GEN_LENGTH <= len <= MAX_GEN_LENGTH,
    ensures
        MIN_GEN_LENGTH <= (if forward {
            if len + 1 < MAX_GEN_LENGTH { len + 1 } else { MAX_GEN_LENGTH as int }
        } else {
            if len > 0 && len - 1 > MIN_GEN_LENGTH { len - 1 } else { MIN_GEN_LENGTH as int }
        }) <= MAX_GEN_LENGTH,
{
}

} // verus!

verus! {

/// The settings file under a home directory.
pub fn config_path_in(home: &str) -> (r: String)
    ensures
        r@ == path_join(path_join(home@, ".gmp"@), "config.toml"@),
{
    let dir = vault_dir_in(home);
    join_path(dir.as_str(), "config.toml")
}

/// The settings file `~/.gmp/config.toml`, or `None` when there is no home directory.
pub fn config_path() -> (r: Option<String>)
    ensures
        r matches Some(p) ==> exists|home: Seq<char>|
            p@ == #[trigger] path_join(path_join(home, ".gmp"@), "config.toml"@),
{
    match home_dir() {
        Some(home) => {
            let p = config_path_in(home.as_str());
            assert(p@ == path_join(path_join(home@, ".gmp"@), "config.toml"@));
            Some(p)
        },
        None => None,
    }
}

} // verus!
