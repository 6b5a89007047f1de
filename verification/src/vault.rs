//! Vault entries, the encrypted vault file format, and password strength.
use vstd::prelude::*;
use vstd::string::StringSliceAdditionalSpecFns;
use crate::text::{
    char_is_alnum, chars_of, concat, contains_chars, owned, copy_string, copy_strings, has_sub, is_alphanumeric,
    str_lower, to_lower, views,
};
use crate::crypto::{
    aes256gcm_decrypt, aes256gcm_encrypt, aes256gcm_open, aes256gcm_seal, argon2_derive_key,
    argon2id_derive, fill_random, wipe, AES_GCM_P_MAX, NONCE_LEN, TAG_LEN,
};

verus! {

/// Length in bytes of the random Argon2id salt at the front of a vault file.
pub const SALT_LEN: usize = 16;

/// Smallest vault file that can hold a salt, a nonce and an authentication tag.
pub const MIN_VAULT_FILE_LEN: usize = 44;

/// Why an encrypted vault could not be opened.
#[derive(Clone, Copy, Debug, PartialEq, Eq, Structural)]
pub enum VaultError {
    /// The data is shorter than salt, nonce and tag together.
    TooSmall,
    /// Authentication failed: the master password is wrong or the data was altered.
    WrongPassword,
}

/// The message shown for a vault error.
pub open spec fn vault_error_message(e: VaultError) -> Seq<char> {
    match e {
        VaultError::TooSmall => "Vault file is too small or corrupted"@,
        VaultError::WrongPassword => "Wrong master password or corrupted vault"@,
    }
}

impl VaultError {
    /// The message shown for the error.
    pub fn message(&self) -> (r: String)
        ensures
            r@ == vault_error_message(*self),
    {
        match self {
            VaultError::TooSmall => owned("Vault file is too small or corrupted"),
            VaultError::WrongPassword => owned("Wrong master password or corrupted vault"),
        }
    }
}

/// The salt of a vault file: its first 16 bytes.
pub open spec fn file_salt(data: Seq<u8>) -> Seq<u8> {
    data.subrange(0, SALT_LEN as int)
}

/// The nonce of a vault file: the 12 bytes after the salt.
pub open spec fn file_nonce(data: Seq<u8>) -> Seq<u8> {
    data.subrange(SALT_LEN as int, (SALT_LEN + NONCE_LEN) as int)
}

/// The ciphertext of a vault file: everything after salt and nonce.
pub open spec fn file_ciphertext(data: Seq<u8>) -> Seq<u8> {
    data.subrange((SALT_LEN + NONCE_LEN) as int, data.len() as int)
}

/// A vault file: `salt || nonce || AES-256-GCM(Argon2id(password, salt), nonce, plaintext)`.
pub open spec fn sealed_vault(plaintext: Seq<u8>, password: Seq<char>, salt: Seq<u8>, nonce: Seq<u8>) -> Seq<u8> {
    salt + nonce + aes256gcm_seal(argon2id_derive(password, salt), nonce, plaintext)
}

/// What opening a vault file with a password gives.
pub open spec fn opened_vault(data: Seq<u8>, password: Seq<char>) -> Result<Seq<u8>, VaultError> {
    if data.len() < MIN_VAULT_FILE_LEN {
        Err(VaultError::TooSmall)
    } else {
        match aes256gcm_open(argon2id_derive(password, file_salt(data)), file_nonce(data), file_ciphertext(data)) {
            Some(p) => Ok(p),
            None => Err(VaultError::WrongPassword),
        }
    }
}

/// A password the key derivation accepts: at most `u32::MAX` UTF-8 bytes.
pub open spec fn password_fits(password: &str) -> bool {
    password.spec_bytes().len() <= 0xFFFF_FFFF
}

fn random_bytes(n: usize) -> (r: Vec<u8>)
    ensures
        r@.len() == n,
{
    let mut r: Vec<u8> = Vec::new();
    let mut i: usize = 0;
    while i < n
        invariant
            i <= n,
            r@.len() == i,
        decreases n - i,
    {
        r.push(0u8);
        i = i + 1;
    }
    fill_random(&mut r);
    r
}

fn append_bytes(out: &mut Vec<u8>, bytes: &[u8])
    ensures
        final(out)@ == old(out)@ + bytes@,
{
    let mut i: usize = 0;
    while i < bytes.len()
        invariant
            i <= bytes@.len(),
            out@ == old(out)@ + bytes@.subrange(0, i as int),
        decreases bytes@.len() - i,
    {
        out.push(bytes[i]);
        i = i + 1;
        assert(bytes@.subrange(0, i as int) == bytes@.subrange(0, i - 1) + seq![bytes@[i - 1]]);
    }
    assert(bytes@.subrange(0, bytes@.len() as int) == bytes@);
}

/// Encrypts serialized vault contents under a master password with a fresh
/// random salt and nonce. The result is a vault file that opens, under the
/// same password, to exactly the plaintext.
pub fn encrypt_vault(plaintext: &[u8], password: &str) -> (data: Vec<u8>)
    requires
        plaintext@.len() <= AES_GCM_P_MAX,
        password_fits(password),
    ensures
        data@ == sealed_vault(plaintext@, password@, file_salt(data@), file_nonce(data@)),
        data@.len() == SALT_LEN + NONCE_LEN + plaintext@.len() + TAG_LEN,
        opened_vault(data@, password@) == Ok::<Seq<u8>, VaultError>(plaintext@),
{
    let salt = random_bytes(SALT_LEN);
    let nonce = random_bytes(NONCE_LEN);
    let mut key = argon2_derive_key(password, salt.as_slice());
    let ciphertext = aes256gcm_encrypt(key.as_slice(), nonce.as_slice(), plaintext);
    wipe(&mut key);
    let mut data: Vec<u8> = Vec::new();
    append_bytes(&mut data, salt.as_slice());
    append_bytes(&mut data, nonce.as_slice());
    append_bytes(&mut data, ciphertext.as_slice());
    proof {
        assert(file_salt(data@) == salt@);
        assert(file_nonce(data@) == nonce@);
        assert(file_ciphertext(data@) == ciphertext@);
    }
    data
}

/// Opens a vault file with a master password: refuses data too small to
/// hold salt, nonce and tag, and reports a wrong password (or altered data)
/// when authentication fails.
pub fn decrypt_vault(data: &[u8], password: &str) -> (r: Result<Vec<u8>, VaultError>)
    requires
        password_fits(password),
    ensures
        match r {
            Ok(p) => opened_vault(data@, password@) == Ok::<Seq<u8>, VaultError>(p@),
            Err(e) => opened_vault(data@, password@) == Err::<Seq<u8>, VaultError>(e),
        },
{
    if data.len() < MIN_VAULT_FILE_LEN {
        return Err(VaultError::TooSmall);
    }
    let salt = &data[0..SALT_LEN];
    let nonce = &data[SALT_LEN..SALT_LEN + NONCE_LEN];
    let ciphertext = &data[SALT_LEN + NONCE_LEN..data.len()];
    let mut key = argon2_derive_key(password, salt);
    let opened = aes256gcm_decrypt(key.as_slice(), nonce, ciphertext);
    wipe(&mut key);
    match opened {
        Some(p) => Ok(p),
        None => Err(VaultError::WrongPassword),
    }
}

/// An ASCII capital letter.
pub open spec fn is_ascii_upper(c: char) -> bool {
    'A' <= c && c <= 'Z'
}

/// An ASCII small letter.
pub open spec fn is_ascii_lower(c: char) -> bool {
    'a' <= c && c <= 'z'
}

/// An ASCII digit.
pub open spec fn is_ascii_digit(c: char) -> bool {
    '0' <= c && c <= '9'
}

/// How many of the four character classes (upper case, lower case, digit,
/// symbol, a symbol being any character that is not alphanumeric) occur.
pub open spec fn variety(s: Seq<char>) -> int {
    (if exists|i: int| 0 <= i < s.len() && is_ascii_upper(#[trigger] s[i]) { 1int } else { 0int })
    + (if exists|i: int| 0 <= i < s.len() && is_ascii_lower(#[trigger] s[i]) { 1int } else { 0int })
    + (if exists|i: int| 0 <= i < s.len() && is_ascii_digit(#[trigger] s[i]) { 1int } else { 0int })
    + (if exists|i: int| 0 <= i < s.len() && !char_is_alnum(#[trigger] s[i]) { 1int } else { 0int })
}

/// The strength score (0 to 4) of a password of `len` bytes with the given characters.
pub open spec fn strength_score(len: int, s: Seq<char>) -> u8 {
    if len >= 16 && variety(s) >= 3 {
        4
    } else if len >= 12 && variety(s) >= 2 {
        3
    } else if len >= 8 && variety(s) >= 2 {
        2
    } else if len >= 8 {
        1
    } else {
        0
    }
}

/// The label shown for a score.
pub open spec fn strength_label(score: u8) -> Seq<char> {
    if score == 4 {
        "Strong"@
    } else if score == 3 {
        "Good"@
    } else if score == 2 {
        "Fair"@
    } else if score == 1 {
        "Weak"@
    } else {
        "Too short"@
    }
}

/// The bar drawn for a score: one `|` per point.
pub open spec fn strength_bar(score: u8) -> Seq<char> {
    if score == 4 {
        "||||"@
    } else if score == 3 {
        "|||"@
    } else if score == 2 {
        "||"@
    } else if score == 1 {
        "|"@
    } else {
        ""@
    }
}

/// Password strength: a score from 0 to 4 with its label and bar. Length is
/// counted in UTF-8 bytes; 16 bytes and three character classes are
/// "Strong", 12 and two "Good", 8 and two "Fair", 8 alone "Weak", and fewer
/// than 8 "Too short".
pub fn password_strength_score(password: &str) -> (r: (u8, &'static str, &'static str))
    ensures
        r.0 == strength_score(password.len() as int, password@),
        r.0 <= 4,
        r.1@ == strength_label(r.0),
        r.2@ == strength_bar(r.0),
{
    let len = password.len();
    let mut has_upper = false;
    let mut has_lower = false;
    let mut has_digit = false;
    let mut has_symbol = false;
    for c in it: password.chars()
        invariant
            it.seq() == password@,
            has_upper == exists|i: int| 0 <= i < it.index() && is_ascii_upper(#[trigger] password@[i]),
            has_lower == exists|i: int| 0 <= i < it.index() && is_ascii_lower(#[trigger] password@[i]),
            has_digit == exists|i: int| 0 <= i < it.index() && is_ascii_digit(#[trigger] password@[i]),
            has_symbol == exists|i: int| 0 <= i < it.index() && !char_is_alnum(#[trigger] password@[i]),
    {
        proof {
            assert(c == password@[it.index() as int]);
        }
        if 'A' <= c && c <= 'Z' {
            has_upper = true;
        }
        if 'a' <= c && c <= 'z' {
            has_lower = true;
        }
        if '0' <= c && c <= '9' {
            has_digit = true;
        }
        if !is_alphanumeric(c) {
            has_symbol = true;
        }
    }
    let classes: usize = (if has_upper { 1usize } else { 0usize }) + (if has_lower { 1usize } else { 0usize })
        + (if has_digit { 1usize } else { 0usize }) + (if has_symbol { 1usize } else { 0usize });
    proof {
        assert(classes as int == variety(password@));
    }
    if len >= 16 && classes >= 3 {
        (4, "Strong", "||||")
    } else if len >= 12 && classes >= 2 {
        (3, "Good", "|||")
    } else if len >= 8 && classes >= 2 {
        (2, "Fair", "||")
    } else if len >= 8 {
        (1, "Weak", "|")
    } else {
        (0, "Too short", "")
    }
}

/// Most old passwords an entry keeps.
pub const MAX_PASSWORD_HISTORY: usize = 10;

/// What an entry holds.
#[derive(Clone, Copy, Debug, PartialEq, Eq, Structural)]
pub enum EntryKind {
    Password,
    Note,
}

/// A password an entry had before, with the time it was replaced.
#[derive(Clone, Debug)]
pub struct PasswordHistoryItem {
    pub password: String,
    pub changed_at: i64,
}

/// One vault entry: a password record or a secure note.
#[derive(Clone, Debug)]
pub struct Entry {
    /// The entry's identifier (the 128 bits of a random UUID).
    pub id: u128,
    pub kind: EntryKind,
    /// Folder path, components separated by `/`; empty for the root.
    pub folder: String,
    pub name: String,
    pub username: String,
    pub password: String,
    pub url: String,
    pub notes: String,
    /// Unix time of creation.
    pub created_at: i64,
    /// Unix time of the last change.
    pub modified_at: i64,
    pub favorite: bool,
    pub tags: Vec<String>,
    /// Base32 TOTP secret; empty when the entry has none.
    pub totp_secret: String,
    /// Earlier passwords, oldest first.
    pub password_history: Vec<PasswordHistoryItem>,
}

/// The mathematical value of a history item.
pub struct HistoryView {
    pub password: Seq<char>,
    pub changed_at: i64,
}

/// The mathematical value of an entry: its strings as character sequences.
pub struct EntryView {
    pub id: u128,
    pub kind: EntryKind,
    pub folder: Seq<char>,
    pub name: Seq<char>,
    pub username: Seq<char>,
    pub password: Seq<char>,
    pub url: Seq<char>,
    pub notes: Seq<char>,
    pub created_at: i64,
    pub modified_at: i64,
    pub favorite: bool,
    pub tags: Seq<Seq<char>>,
    pub totp_secret: Seq<char>,
    pub password_history: Seq<HistoryView>,
}

impl View for PasswordHistoryItem {
    type V = HistoryView;

    open spec fn view(&self) -> HistoryView {
        HistoryView { password: self.password@, changed_at: self.changed_at }
    }
}

/// The views of a list of history items.
pub open spec fn history_views(v: Seq<PasswordHistoryItem>) -> Seq<HistoryView> {
    v.map_values(|h: PasswordHistoryItem| h@)
}

impl View for Entry {
    type V = EntryView;

    open spec fn view(&self) -> EntryView {
        EntryView {
            id: self.id,
            kind: self.kind,
            folder: self.folder@,
            name: self.name@,
            username: self.username@,
            password: self.password@,
            url: self.url@,
            notes: self.notes@,
            created_at: self.created_at,
            modified_at: self.modified_at,
            favorite: self.favorite,
            tags: views(self.tags@),
            totp_secret: self.totp_secret@,
            password_history: history_views(self.password_history@),
        }
    }
}

/// The views of a list of entries.
pub open spec fn entry_views(v: Seq<Entry>) -> Seq<EntryView> {
    v.map_values(|e: Entry| e@)
}

/// A fresh entry of a kind, created at a time with an identifier: every
/// text field empty, not a favorite, no tags, no history.
pub open spec fn blank_entry(kind: EntryKind, id: u128, now: i64) -> EntryView {
    EntryView {
        id: id,
        kind: kind,
        folder: Seq::empty(),
        name: Seq::empty(),
        username: Seq::empty(),
        password: Seq::empty(),
        url: Seq::empty(),
        notes: Seq::empty(),
        created_at: now,
        modified_at: now,
        favorite: false,
        tags: Seq::empty(),
        totp_secret: Seq::empty(),
        password_history: Seq::empty(),
    }
}

/// Whether an entry matches a search query: the query, lower-cased, occurs
/// in the lower-cased name, username, URL, notes, folder or one of the tags.
pub open spec fn entry_matches(e: EntryView, query: Seq<char>) -> bool {
    let q = str_lower(query);
    has_sub(str_lower(e.name), q) || has_sub(str_lower(e.username), q) || has_sub(str_lower(e.url), q)
        || has_sub(str_lower(e.notes), q) || has_sub(str_lower(e.folder), q)
        || exists|t: int| 0 <= t < e.tags.len() && #[trigger] has_sub(str_lower(e.tags[t]), q)
}

/// The current time as Unix seconds, from `chrono::Utc::now().timestamp()`.
/// Nothing is claimed of the value: it is the time.
#[verifier::external_body]
pub(crate) fn current_timestamp() -> i64 {
    chrono::Utc::now().timestamp()
}

/// A fresh identifier: the 128 bits of `uuid::Uuid::new_v4()`. Nothing is
/// claimed of the value: it is random.
#[verifier::external_body]
pub(crate) fn new_entry_id() -> u128 {
    uuid::Uuid::new_v4().as_u128()
}

fn copy_history(v: &Vec<PasswordHistoryItem>) -> (r: Vec<PasswordHistoryItem>)
    ensures
        history_views(r@) == history_views(v@),
{
    let mut r: Vec<PasswordHistoryItem> = Vec::new();
    let mut i: usize = 0;
    while i < v.len()
        invariant
            i <= v@.len(),
            r@.len() == i,
            forall|j: int| 0 <= j < i ==> r@[j]@ == v@[j]@,
        decreases v@.len() - i,
    {
        r.push(PasswordHistoryItem { password: copy_string(&v[i].password), changed_at: v[i].changed_at });
        i = i + 1;
    }
    assert(history_views(r@) == history_views(v@));
    r
}

fn contains_lower(hay: &str, q: &Vec<char>) -> (r: bool)
    ensures
        r == has_sub(str_lower(hay@), q@),
{
    let h = to_lower(hay);
    let hc = chars_of(h.as_str());
    contains_chars(&hc, q)
}

impl Entry {
    fn blank(kind: EntryKind) -> (e: Self)
        ensures
            e@ == blank_entry(kind, e.id, e.created_at),
    {
        let now = current_timestamp();
        let e = Entry {
            id: new_entry_id(),
            kind: kind,
            folder: String::new(),
            name: String::new(),
            username: String::new(),
            password: String::new(),
            url: String::new(),
            notes: String::new(),
            created_at: now,
            modified_at: now,
            favorite: false,
            tags: Vec::new(),
            totp_secret: String::new(),
            password_history: Vec::new(),
        };
        proof {
            assert(views(e.tags@) == Seq::<Seq<char>>::empty());
            assert(history_views(e.password_history@) == Seq::<HistoryView>::empty());
        }
        e
    }

    /// A new, empty password entry with a fresh identifier, created now.
    pub fn new_password() -> (e: Self)
        ensures
            e@ == blank_entry(EntryKind::Password, e.id, e.created_at),
    {
        Self::blank(EntryKind::Password)
    }

    /// A new, empty note with a fresh identifier, created now.
    pub fn new_note() -> (e: Self)
        ensures
            e@ == blank_entry(EntryKind::Note, e.id, e.created_at),
    {
        Self::blank(EntryKind::Note)
    }

    /// A copy of the entry.
    pub fn duplicate(&self) -> (e: Self)
        ensures
            e@ == self@,
    {
        Entry {
            id: self.id,
            kind: self.kind,
            folder: copy_string(&self.folder),
            name: copy_string(&self.name),
            username: copy_string(&self.username),
            password: copy_string(&self.password),
            url: copy_string(&self.url),
            notes: copy_string(&self.notes),
            created_at: self.created_at,
            modified_at: self.modified_at,
            favorite: self.favorite,
            tags: copy_strings(&self.tags),
            totp_secret: copy_string(&self.totp_secret),
            password_history: copy_history(&self.password_history),
        }
    }

    /// Whether the entry matches a search query, ignoring case: the query
    /// occurs in the name, username, URL, notes, folder or one of the tags.
    pub fn matches(&self, query: &str) -> (r: bool)
        ensures
            r == entry_matches(self@, query@),
    {
        let ql = to_lower(query);
        let q = chars_of(ql.as_str());
        if contains_lower(self.name.as_str(), &q) || contains_lower(self.username.as_str(), &q)
            || contains_lower(self.url.as_str(), &q) || contains_lower(self.notes.as_str(), &q)
            || contains_lower(self.folder.as_str(), &q) {
            return true;
        }
        let mut t: usize = 0;
        while t < self.tags.len()
            invariant
                q@ == str_lower(query@),
                t <= self.tags@.len(),
                forall|j: int| 0 <= j < t ==> !has_sub(str_lower(self.tags@[j]@), q@),
            decreases self.tags@.len() - t,
        {
            if contains_lower(self.tags[t].as_str(), &q) {
                proof {
                    assert(self@.tags[t as int] == self.tags@[t as int]@);
                    assert(has_sub(str_lower(self@.tags[t as int]), str_lower(query@)));
                    assert(entry_matches(self@, query@));
                }
                return true;
            }
            t = t + 1;
        }
        proof {
            assert forall|j: int| 0 <= j < views(self.tags@).len() implies !#[trigger] has_sub(str_lower(views(self.tags@)[j]), str_lower(query@)) by {
                assert(views(self.tags@)[j] == self.tags@[j]@);
            }
        }
        false
    }
}

/// All entries of the vault.
pub struct Vault {
    pub entries: Vec<Entry>,
}

impl View for Vault {
    type V = Seq<EntryView>;

    open spec fn view(&self) -> Seq<EntryView> {
        entry_views(self.entries@)
    }
}

impl Vault {
    /// An empty vault.
    pub fn new() -> (v: Self)
        ensures
            v@ == Seq::<EntryView>::empty(),
    {
        let v = Vault { entries: Vec::new() };
        assert(v@ == Seq::<EntryView>::empty());
        v
    }

    /// Adds imported entries at the end of the vault, each under a fresh
    /// identifier, and says how many there were.
    pub fn import_entries(&mut self, entries: Vec<Entry>) -> (count: usize)
        ensures
            count == entries@.len(),
            final(self)@.len() == old(self)@.len() + entries@.len(),
            forall|i: int| 0 <= i < old(self)@.len() ==> #[trigger] final(self)@[i] == old(self)@[i],
            forall|i: int| 0 <= i < entries@.len() ==> {
                let e = #[trigger] final(self)@[old(self)@.len() + i];
                e == EntryView { id: e.id, ..entries@[i]@ }
            },
    {
        let count = entries.len();
        let ghost old_entries = self@;
        let mut i: usize = 0;
        for entry in it: entries
            invariant
                it.seq() == entries@,
                count == entries@.len(),
                self@.len() == old_entries.len() + it.index(),
                forall|k: int| 0 <= k < old_entries.len() ==> #[trigger] self@[k] == old_entries[k],
                forall|k: int| 0 <= k < it.index() ==> {
                    let e = #[trigger] self@[old_entries.len() + k];
                    e == EntryView { id: e.id, ..entries@[k]@ }
                },
        {
            let ghost idx = it.index();
            let ghost orig = entry@;
            proof {
                assert(orig == entries@[idx]@);
            }
            let mut entry = entry;
            entry.id = new_entry_id();
            let ghost before = self@;
            let ghost before_vec = self.entries@;
            self.entries.push(entry);
            proof {
                assert(self.entries@ == before_vec.push(entry));
                assert forall|k: int| 0 <= k < before.len() implies #[trigger] self@[k] == before[k] by {
                    assert(self.entries@[k] == before_vec[k]);
                }
                assert(self@[before.len() as int] == entry@);
                assert forall|k: int| 0 <= k < idx + 1 implies {
                    let e = #[trigger] self@[old_entries.len() + k];
                    e == EntryView { id: e.id, ..entries@[k]@ }
                } by {
                    if k < idx {
                        assert(self@[old_entries.len() + k] == before[old_entries.len() + k]);
                    }
                }
            }
        }
        count
    }
}

/// A path appended to a directory path (`Path::join`): an absolute path
/// replaces the directory; a relative one follows it, with a `/` between
/// them unless the directory is empty or already ends in one.
pub open spec fn path_join(dir: Seq<char>, name: Seq<char>) -> Seq<char> {
    if name.len() > 0 && name[0] == '/' {
        name
    } else if dir.len() == 0 || dir.last() == '/' {
        dir + name
    } else {
        dir + seq!['/'] + name
    }
}

/// Appends a path to a directory path.
pub fn join_path(dir: &str, name: &str) -> (r: String)
    ensures
        r@ == path_join(dir@, name@),
{
    let d = chars_of(dir);
    let n = chars_of(name);
    if n.len() > 0 && n[0] == '/' {
        return owned(name);
    }
    if d.len() == 0 || d[d.len() - 1] == '/' {
        concat(dir, name)
    } else {
        let with_sep = concat(dir, "/");
        proof {
            reveal_strlit("/");
        }
        concat(with_sep.as_str(), name)
    }
}

/// The user's home directory, from `dirs::home_dir`, as text (a path that
/// is not valid Unicode is converted lossily). Nothing is claimed of it: it
/// comes from the environment.
#[verifier::external_body]
pub(crate) fn home_dir() -> Option<String> {
    dirs::home_dir().map(|p| p.to_string_lossy().into_owned())
}

/// The directory that holds the vault, the settings and exports, under a home directory.
pub fn vault_dir_in(home: &str) -> (r: String)
    ensures
        r@ == path_join(home@, ".gmp"@),
{
    join_path(home, ".gmp")
}

/// The vault file under a home directory.
pub fn vault_path_in(home: &str) -> (r: String)
    ensures
        r@ == path_join(path_join(home@, ".gmp"@), "vault.enc"@),
{
    let dir = vault_dir_in(home);
    join_path(dir.as_str(), "vault.enc")
}

/// The directory `~/.gmp`, or `None` when there is no home directory.
pub fn vault_dir() -> (r: Option<String>)
    ensures
        r matches Some(d) ==> exists|home: Seq<char>| d@ == #[trigger] path_join(home, ".gmp"@),
{
    match home_dir() {
        Some(home) => {
            let d = vault_dir_in(home.as_str());
            assert(d@ == path_join(home@, ".gmp"@));
            Some(d)
        },
        None => None,
    }
}

/// The vault file `~/.gmp/vault.enc`, or `None` when there is no home directory.
pub fn vault_path() -> (r: Option<String>)
    ensures
        r matches Some(p) ==> exists|home: Seq<char>|
            p@ == #[trigger] path_join(path_join(home, ".gmp"@), "vault.enc"@),
{
    match home_dir() {
        Some(home) => {
            let p = vault_path_in(home.as_str());
            assert(p@ == path_join(path_join(home@, ".gmp"@), "vault.enc"@));
            Some(p)
        },
        None => None,
    }
}

/// Search covers every field: an entry matches a query exactly when the
/// lower-cased query occurs in the lower-cased name, username, URL, notes,
/// folder or one of the tags.
pub proof fn law_search_covers_every_field(e: EntryView, query: Seq<char>)
    ensures
        has_sub(str_lower(e.name), str_lower(query)) ==> entry_matches(e, query),
        has_sub(str_lower(e.username), str_lower(query)) ==> entry_matches(e, query),
        has_sub(str_lower(e.url), str_lower(query)) ==> entry_matches(e, query),
        has_sub(str_lower(e.notes), str_lower(query)) ==> entry_matches(e, query),
        has_sub(str_lower(e.folder), str_lower(query)) ==> entry_matches(e, query),
        forall|t: int| 0 <= t < e.tags.len() && has_sub(str_lower(#[trigger] e.tags[t]), str_lower(query))
            ==> entry_matches(e, query),
        entry_matches(e, query) ==> has_sub(str_lower(e.name), str_lower(query)) || has_sub(
            str_lower(e.username),
            str_lower(query),
        ) || has_sub(str_lower(e.url), str_lower(query)) || has_sub(str_lower(e.notes), str_lower(query))
            || has_sub(str_lower(e.folder), str_lower(query)) || exists|t: int|
            0 <= t < e.tags.len() && has_sub(str_lower(#[trigger] e.tags[t]), str_lower(query)),
{
}

/// The strength levels: at least 16 bytes with three character classes is
/// strong (4); at least 12 bytes with two classes is good (3); at least 8
/// bytes with two classes is fair (2); at least 8 bytes is weak (1);
/// shorter is too short (0). An upper-case letter, a lower-case letter
/// and a digit make three classes, and a longer password never scores lower.
pub proof fn law_strength_levels(len: int, s: Seq<char>, longer: int)
    ensures
        len >= 16 && variety(s) >= 3 ==> strength_score(len, s) == 4,
        len >= 12 && variety(s) >= 2 && !(len >= 16 && variety(s) >= 3) ==> strength_score(len, s) == 3,
        8 <= len < 12 && variety(s) >= 2 ==> strength_score(len, s) == 2,
        len >= 8 && variety(s) < 2 ==> strength_score(len, s) == 1,
        len < 8 ==> strength_score(len, s) == 0,
        (exists|i: int| 0 <= i < s.len() && is_ascii_upper(#[trigger] s[i])) && (exists|i: int|
            0 <= i < s.len() && is_ascii_lower(#[trigger] s[i])) && (exists|i: int|
            0 <= i < s.len() && is_ascii_digit(#[trigger] s[i])) ==> variety(s) >= 3,
        len <= longer ==> strength_score(len, s) <= strength_score(longer, s),
        strength_label(strength_score(len, s)) == (if len >= 16 && variety(s) >= 3 {
            "Strong"@
        } else if len >= 12 && variety(s) >= 2 {
            "Good"@
        } else if len >= 8 && variety(s) >= 2 {
            "Fair"@
        } else if len >= 8 {
            "Weak"@
        } else {
            "Too short"@
        }),
{
}

} // verus!
