//! Figures about the vault: how many entries of each kind, favorites,
//! folders, weak and reused passwords, ages, tags and one-time-password secrets.
use vstd::prelude::*;
use vstd::utf8::encode_utf8;
use crate::app::{App, VaultStats};
use crate::text::{chars_eq, chars_of};
use crate::vault::{current_timestamp, password_strength_score, strength_score, EntryKind, EntryView};

verus! {

/// Seconds in a day.
pub const SECONDS_PER_DAY: i64 = 86400;

/// How many of the positions below `n` satisfy `p`.
pub open spec fn count_where(n: nat, p: spec_fn(int) -> bool) -> nat
    decreases n,
{
    if n == 0 {
        0
    } else {
        count_where((n - 1) as nat, p) + if p(n - 1) {
            1nat
        } else {
            0nat
        }
    }
}

/// How many distinct values a sequence holds (positions of first occurrences).
pub open spec fn distinct_count(s: Seq<Seq<char>>) -> nat {
    count_where(s.len(), |i: int| forall|j: int| 0 <= j < i ==> s[j] != s[i])
}

/// The tags of all entries, in order.
pub open spec fn all_tags(v: Seq<EntryView>) -> Seq<Seq<char>>
    decreases v.len(),
{
    if v.len() == 0 {
        Seq::empty()
    } else {
        all_tags(v.drop_last()) + v.last().tags
    }
}

/// Whole days from a Unix time to `now`, none for a time in the future.
pub open spec fn age_days(now: i64, t: i64) -> nat {
    if now - t > 0 {
        ((now - t) / SECONDS_PER_DAY as int) as nat
    } else {
        0
    }
}

/// The sum of the ages (in days) since the entries' last change.
pub open spec fn total_age(v: Seq<EntryView>, now: i64) -> nat
    decreases v.len(),
{
    if v.len() == 0 {
        0
    } else {
        total_age(v.drop_last(), now) + age_days(now, v.last().modified_at)
    }
}

/// The largest age (in days) since an entry's creation; 0 for no entries.
pub open spec fn oldest_age(v: Seq<EntryView>, now: i64) -> nat
    decreases v.len(),
{
    if v.len() == 0 {
        0
    } else {
        let rest = oldest_age(v.drop_last(), now);
        let a = age_days(now, v.last().created_at);
        if a > rest {
            a
        } else {
            rest
        }
    }
}

/// A password entry whose password scores "Weak" or "Too short".
pub open spec fn weak_password(e: EntryView) -> bool {
    e.kind == EntryKind::Password && strength_score(encode_utf8(e.password).len() as usize as int, e.password) <= 1
}

/// A password entry with a non-empty password that another password entry also has.
pub open spec fn reused_password(v: Seq<EntryView>, i: int) -> bool {
    &&& v[i].kind == EntryKind::Password
    &&& v[i].password.len() > 0
    &&& exists|j: int| 0 <= j < v.len() && j != i && v[j].kind == EntryKind::Password && #[trigger] v[j].password == v[i].password
}

/// The figures of a vault at time `now`.
pub open spec fn vault_stats(v: Seq<EntryView>, now: i64) -> VaultStats {
    VaultStats {
        total: v.len() as usize,
        passwords: count_where(v.len(), |i: int| v[i].kind == EntryKind::Password) as usize,
        notes: count_where(v.len(), |i: int| v[i].kind == EntryKind::Note) as usize,
        favorites: count_where(v.len(), |i: int| v[i].favorite) as usize,
        folders: count_where(v.len(), |i: int| v[i].folder.len() > 0 && forall|j: int| 0 <= j < i ==> v[j].folder != v[i].folder) as usize,
        weak_passwords: count_where(v.len(), |i: int| weak_password(v[i])) as usize,
        duplicate_passwords: count_where(v.len(), |i: int| reused_password(v, i)) as usize,
        avg_age_days: (if v.len() == 0 {
            0
        } else {
            total_age(v, now) / v.len()
        }) as u64,
        oldest_days: oldest_age(v, now) as u64,
        tags_count: distinct_count(all_tags(v)) as usize,
        totp_count: count_where(v.len(), |i: int| v[i].totp_secret.len() > 0) as usize,
    }
}

proof fn lemma_count_bound(n: nat, p: spec_fn(int) -> bool)
    ensures
        count_where(n, p) <= n,
    decreases n,
{
    if n > 0 {
        lemma_count_bound((n - 1) as nat, p);
    }
}

fn age_in_days(now: i64, t: i64) -> (r: u64)
    ensures
        r == age_days(now, t),
        r <= 0x1_0000_0000_0000,
{
    let diff: i128 = (now as i128) - (t as i128);
    if diff > 0 {
        assert(diff < 0x1_0000_0000_0000_0000);
        assert(diff / 86400 <= 0x1_0000_0000_0000) by (nonlinear_arith)
            requires diff < 0x1_0000_0000_0000_0000, diff > 0;
        (diff / 86400) as u64
    } else {
        0
    }
}

impl App {
    /// The figures of the vault at Unix time `now`.
    pub fn compute_stats_at(&self, now: i64) -> (r: VaultStats)
        ensures
            r == vault_stats(self.vault@, now),
    {
        let ghost v = self.vault@;
        let entries = &self.vault.entries;
        let n = entries.len();
        let mut passwords: usize = 0;
        let mut notes: usize = 0;
        let mut favorites: usize = 0;
        let mut totp: usize = 0;
        let mut weak: usize = 0;
        let mut folders: usize = 0;
        let mut reused: usize = 0;
        let mut total: u128 = 0;
        let mut oldest: u64 = 0;
        let mut i: usize = 0;
        while i < n
            invariant
                v == self.vault@,
                entries == &self.vault.entries,
                n == v.len(),
                i <= n,
                passwords == count_where(i as nat, |k: int| v[k].kind == EntryKind::Password),
                notes == count_where(i as nat, |k: int| v[k].kind == EntryKind::Note),
                favorites == count_where(i as nat, |k: int| v[k].favorite),
                totp == count_where(i as nat, |k: int| v[k].totp_secret.len() > 0),
                weak == count_where(i as nat, |k: int| weak_password(v[k])),
                folders == count_where(i as nat, |k: int| v[k].folder.len() > 0 && forall|j: int| 0 <= j < k ==> v[j].folder != v[k].folder),
                reused == count_where(i as nat, |k: int| reused_password(v, k)),
                total == total_age(v.take(i as int), now),
                total <= i * 0x1_0000_0000_0000,
                oldest == oldest_age(v.take(i as int), now),
                passwords <= i && notes <= i && favorites <= i && totp <= i && weak <= i && folders <= i && reused <= i,
            decreases n - i,
        {
            let e = &entries[i];
            proof {
                assert(v[i as int] == e@);
                assert(v.take(i + 1).drop_last() =~= v.take(i as int));
                assert(v.take(i + 1).last() == e@);
            }
            if e.kind == EntryKind::Password {
                passwords = passwords + 1;
                let (score, _, _) = password_strength_score(e.password.as_str());
                if score <= 1 {
                    weak = weak + 1;
                }
            } else {
                notes = notes + 1;
            }
            if e.favorite {
                favorites = favorites + 1;
            }
            if !e.totp_secret.as_str().is_empty() {
                totp = totp + 1;
            }
            if self.first_folder_occurrence(i) {
                folders = folders + 1;
            }
            if self.password_reused(i) {
                reused = reused + 1;
            }
            let age = age_in_days(now, e.modified_at);
            total = total + age as u128;
            let created = age_in_days(now, e.created_at);
            if created > oldest {
                oldest = created;
            }
            i = i + 1;
        }
        proof {
            assert(v.take(n as int) =~= v);
        }
        let avg: u64 = if n == 0 {
            0
        } else {
            proof {
                assert(total / (n as u128) <= 0x1_0000_0000_0000) by (nonlinear_arith)
                    requires total <= n * 0x1_0000_0000_0000, n > 0;
            }
            (total / (n as u128)) as u64
        };
        let tags = self.distinct_tag_count();
        VaultStats {
            total: n,
            passwords,
            notes,
            favorites,
            folders,
            weak_passwords: weak,
            duplicate_passwords: reused,
            avg_age_days: avg,
            oldest_days: oldest,
            tags_count: tags,
            totp_count: totp,
        }
    }

    /// The figures of the vault now.
    pub fn compute_stats(&self) -> (r: VaultStats)
        ensures
            exists|now: i64| r == #[trigger] vault_stats(self.vault@, now),
    {
        let now = current_timestamp();
        let r = self.compute_stats_at(now);
        assert(r == vault_stats(self.vault@, now));
        r
    }
}

} // verus!

verus! {

proof fn lemma_all_tags_step(v: Seq<EntryView>, i: int)
    requires
        0 <= i < v.len(),
    ensures
        all_tags(v.take(i + 1)) == all_tags(v.take(i)) + v[i].tags,
{
    assert(v.take(i + 1).drop_last() =~= v.take(i));
}

impl App {
    /// Whether entry `i` has a non-empty folder that no earlier entry has.
    fn first_folder_occurrence(&self, i: usize) -> (r: bool)
        requires
            i < self.vault@.len(),
        ensures
            r == (self.vault@[i as int].folder.len() > 0 && forall|j: int| 0 <= j < i ==> self.vault@[j].folder != self.vault@[i as int].folder),
    {
        let ghost v = self.vault@;
        proof {
            assert(v[i as int] == self.vault.entries@[i as int]@);
        }
        if self.vault.entries[i].folder.as_str().is_empty() {
            return false;
        }
        let f = chars_of(self.vault.entries[i].folder.as_str());
        let mut j: usize = 0;
        while j < i
            invariant
                v == self.vault@,
                i < v.len(),
                f@ == v[i as int].folder,
                j <= i,
                forall|t: int| 0 <= t < j ==> v[t].folder != v[i as int].folder,
            decreases i - j,
        {
            proof {
                assert(v[j as int] == self.vault.entries@[j as int]@);
            }
            let g = chars_of(self.vault.entries[j].folder.as_str());
            if chars_eq(&g, &f) {
                return false;
            }
            j = j + 1;
        }
        true
    }

    /// Whether entry `i` is a password entry with a non-empty password that
    /// another password entry also has.
    fn password_reused(&self, i: usize) -> (r: bool)
        requires
            i < self.vault@.len(),
        ensures
            r == reused_password(self.vault@, i as int),
    {
        let ghost v = self.vault@;
        proof {
            assert(v[i as int] == self.vault.entries@[i as int]@);
        }
        let e = &self.vault.entries[i];
        if e.kind != EntryKind::Password || e.password.as_str().is_empty() {
            return false;
        }
        let mut j: usize = 0;
        while j < self.vault.entries.len()
            invariant
                v == self.vault@,
                i < v.len(),
                e == &self.vault.entries[i as int],
                v[i as int].kind == EntryKind::Password,
                v[i as int].password.len() > 0,
                j <= v.len(),
                forall|t: int| 0 <= t < j && t != i ==> !(v[t].kind == EntryKind::Password && v[t].password == v[i as int].password),
            decreases v.len() - j,
        {
            proof {
                assert(v[j as int] == self.vault.entries@[j as int]@);
            }
            let o = &self.vault.entries[j];
            if j != i && o.kind == EntryKind::Password && o.password == e.password {
                proof {
                    assert(v[j as int].password == v[i as int].password);
                    assert(v[j as int].kind == EntryKind::Password);
                    assert(v[i as int].kind == EntryKind::Password);
                    assert(v[i as int].password.len() > 0);
                    assert(exists|t: int| 0 <= t < v.len() && t != i && v[t].kind == EntryKind::Password && #[trigger] v[t].password == v[i as int].password);
                }
                return true;
            }
            j = j + 1;
        }
        false
    }

    /// How many distinct tags the entries carry.
    fn distinct_tag_count(&self) -> (r: usize)
        ensures
            r == distinct_count(all_tags(self.vault@)),
    {
        let ghost v = self.vault@;
        let mut seen: Vec<Vec<char>> = Vec::new();
        let mut count: u128 = 0;
        let mut i: usize = 0;
        while i < self.vault.entries.len()
            invariant
                v == self.vault@,
                i <= v.len(),
                seen@.map_values(|x: Vec<char>| x@) == all_tags(v.take(i as int)),
                count == distinct_count(all_tags(v.take(i as int))),
                count <= seen@.len(),
            decreases v.len() - i,
        {
            proof {
                assert(v[i as int] == self.vault.entries@[i as int]@);
                lemma_all_tags_step(v, i as int);
            }
            let tags = &self.vault.entries[i].tags;
            let mut t: usize = 0;
            while t < tags.len()
                invariant
                    v == self.vault@,
                    i < v.len(),
                    tags == &self.vault.entries[i as int].tags,
                    v[i as int].tags == crate::text::views(tags@),
                    t <= tags@.len(),
                    seen@.map_values(|x: Vec<char>| x@) == all_tags(v.take(i as int)) + v[i as int].tags.take(t as int),
                    count == distinct_count(all_tags(v.take(i as int)) + v[i as int].tags.take(t as int)),
                    count <= seen@.len(),
                decreases tags@.len() - t,
            {
                let x = chars_of(tags[t].as_str());
                let ghost s = seen@.map_values(|y: Vec<char>| y@);
                let ghost s2 = all_tags(v.take(i as int)) + v[i as int].tags.take(t + 1);
                proof {
                    assert(x@ == v[i as int].tags[t as int]);
                    assert(s2 =~= s.push(x@));
                }
                let mut found = false;
                let mut k: usize = 0;
                while k < seen.len()
                    invariant
                        s == seen@.map_values(|y: Vec<char>| y@),
                        k <= seen@.len(),
                        found == exists|j: int| 0 <= j < k && s[j] == x@,
                    decreases seen@.len() - k,
                {
                    if chars_eq(&seen[k], &x) {
                        found = true;
                    }
                    proof {
                        assert(s[k as int] == seen@[k as int]@);
                    }
                    k = k + 1;
                }
                proof {
                    let p = |q: int| forall|j: int| 0 <= j < q ==> s2[j] != s2[q];
                    let ps = |q: int| forall|j: int| 0 <= j < q ==> s[j] != s[q];
                    assert forall|q: int| 0 <= q < s.len() implies #[trigger] p(q) == ps(q) by {
                        assert forall|j: int| 0 <= j < q implies s2[j] == s[j] by {}
                        assert(s2[q] == s[q]);
                    }
                    lemma_count_agree(s.len(), p, ps);
                    assert(s2[s.len() as int] == x@);
                    assert forall|j: int| 0 <= j < s.len() implies s2[j] == s[j] by {}
                    assert(p(s.len() as int) == !found);
                    assert(distinct_count(s2) == count_where(s2.len(), p));
                }
                if !found {
                    count = count + 1;
                }
                seen.push(x);
                proof {
                    assert(seen@.map_values(|y: Vec<char>| y@) =~= s2);
                }
                t = t + 1;
            }
            proof {
                assert(v[i as int].tags.take(tags@.len() as int) =~= v[i as int].tags);
                assert(all_tags(v.take(i + 1)) =~= all_tags(v.take(i as int)) + v[i as int].tags);
            }
            i = i + 1;
        }
        proof {
            assert(v.take(v.len() as int) =~= v);
            assert(seen@.len() == seen.len());
        }
        count as usize
    }
}

proof fn lemma_count_agree(n: nat, p: spec_fn(int) -> bool, q: spec_fn(int) -> bool)
    requires
        forall|i: int| 0 <= i < n ==> #[trigger] p(i) == q(i),
    ensures
        count_where(n, p) == count_where(n, q),
    decreases n,
{
    if n > 0 {
        lemma_count_agree((n - 1) as nat, p, q);
    }
}

proof fn lemma_count_split(n: nat, p: spec_fn(int) -> bool, q: spec_fn(int) -> bool)
    requires
        forall|i: int| 0 <= i < n ==> (#[trigger] p(i) != q(i)),
    ensures
        count_where(n, p) + count_where(n, q) == n,
    decreases n,
{
    if n > 0 {
        lemma_count_split((n - 1) as nat, p, q);
    }
}

proof fn lemma_count_within(n: nat, p: spec_fn(int) -> bool, q: spec_fn(int) -> bool)
    requires
        forall|i: int| 0 <= i < n ==> #[trigger] p(i) ==> q(i),
    ensures
        count_where(n, p) <= count_where(n, q),
    decreases n,
{
    if n > 0 {
        lemma_count_within((n - 1) as nat, p, q);
    }
}

/// The figures add up: every entry is a password or a note; favorites,
/// entries with a one-time-password secret and folders are at most all
/// entries; weak and reused passwords are at most the password entries.
pub proof fn law_stats_add_up(v: Seq<EntryView>, now: i64)
    requires
        v.len() <= usize::MAX,
    ensures
        vault_stats(v, now).passwords + vault_stats(v, now).notes == vault_stats(v, now).total,
        vault_stats(v, now).favorites <= vault_stats(v, now).total,
        vault_stats(v, now).totp_count <= vault_stats(v, now).total,
        vault_stats(v, now).folders <= vault_stats(v, now).total,
        vault_stats(v, now).weak_passwords <= vault_stats(v, now).passwords,
        vault_stats(v, now).duplicate_passwords <= vault_stats(v, now).passwords,
{
    let n = v.len();
    let pw = |i: int| v[i].kind == EntryKind::Password;
    let note = |i: int| v[i].kind == EntryKind::Note;
    lemma_count_split(n, pw, note);
    lemma_count_bound(n, |i: int| v[i].favorite);
    lemma_count_bound(n, |i: int| v[i].totp_secret.len() > 0);
    lemma_count_bound(n, |i: int| v[i].folder.len() > 0 && forall|j: int| 0 <= j < i ==> v[j].folder != v[i].folder);
    lemma_count_within(n, |i: int| weak_password(v[i]), pw);
    lemma_count_within(n, |i: int| reused_password(v, i), pw);
}

} // verus!
