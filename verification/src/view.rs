//! The lines the entry view and the entry list show, as pieces of text
//! with a tone each; the terminal front end only draws them.
use vstd::prelude::*;
use crate::app::{self_selected, App};
use crate::display::{
    code_timer_color, code_timer_fill, date_time_text, hashed, mask_width, password_mask, recent_history,
    spaced_code, strength_color, strength_color_from_label, tags_display, timer_color, timer_fill, utc_formatted,
    HISTORY_SHOWN,
};
use crate::text::{concat, decimal, decimal_string, join, owned, split_chars, split_on, string_from_chars, views};
use crate::theme::Color;
use crate::vault::{password_strength_score, strength_bar, strength_label, strength_score, Entry, EntryKind, EntryView};

verus! {

/// How a piece of text is shown.
#[derive(Clone, Copy, Debug, PartialEq, Eq, Structural)]
pub enum Tone {
    /// Ordinary text.
    Plain,
    /// Bold text.
    Strong,
    /// A title: the accent colour, bold.
    Title,
    /// A folder path: the folder colour.
    Folder,
    /// A folder heading: the folder colour, bold.
    FolderStrong,
    /// Tags: the tag colour.
    Tag,
    /// Labels and secondary text: the muted colour.
    Muted,
    /// A revealed secret or a code: the success colour, bold.
    Secret,
    /// A key hint: the highlight colour.
    Hint,
    /// Old passwords and errors: the error colour.
    Warning,
    /// A given colour.
    Colored(Color),
}

/// A line as text pieces with their tones.
pub open spec fn line_view(l: Vec<(String, Tone)>) -> Seq<(Seq<char>, Tone)> {
    l@.map_values(|p: (String, Tone)| (p.0@, p.1))
}

/// Lines as text pieces with their tones.
pub open spec fn lines_view(v: Seq<Vec<(String, Tone)>>) -> Seq<Seq<(Seq<char>, Tone)>> {
    v.map_values(|l: Vec<(String, Tone)>| line_view(l))
}

fn line1(a: String, ta: Tone) -> (l: Vec<(String, Tone)>)
    ensures
        line_view(l) == seq![(a@, ta)],
{
    let mut l: Vec<(String, Tone)> = Vec::new();
    l.push((a, ta));
    assert(line_view(l) =~= seq![(a@, ta)]);
    l
}

fn line2(a: String, ta: Tone, b: String, tb: Tone) -> (l: Vec<(String, Tone)>)
    ensures
        line_view(l) == seq![(a@, ta), (b@, tb)],
{
    let mut l: Vec<(String, Tone)> = Vec::new();
    l.push((a, ta));
    l.push((b, tb));
    assert(line_view(l) =~= seq![(a@, ta), (b@, tb)]);
    l
}

fn line3(a: String, ta: Tone, b: String, tb: Tone, c: String, tc: Tone) -> (l: Vec<(String, Tone)>)
    ensures
        line_view(l) == seq![(a@, ta), (b@, tb), (c@, tc)],
{
    let mut l: Vec<(String, Tone)> = Vec::new();
    l.push((a, ta));
    l.push((b, tb));
    l.push((c, tc));
    assert(line_view(l) =~= seq![(a@, ta), (b@, tb), (c@, tc)]);
    l
}

fn line4(a: String, ta: Tone, b: String, tb: Tone, c: String, tc: Tone, d: String, td: Tone) -> (l: Vec<(String, Tone)>)
    ensures
        line_view(l) == seq![(a@, ta), (b@, tb), (c@, tc), (d@, td)],
{
    let mut l: Vec<(String, Tone)> = Vec::new();
    l.push((a, ta));
    l.push((b, tb));
    l.push((c, tc));
    l.push((d, td));
    assert(line_view(l) =~= seq![(a@, ta), (b@, tb), (c@, tc), (d@, td)]);
    l
}

fn add_line(out: &mut Vec<Vec<(String, Tone)>>, l: Vec<(String, Tone)>)
    ensures
        lines_view(final(out)@) == lines_view(old(out)@).push(line_view(l)),
{
    out.push(l);
    assert(lines_view(out@) =~= lines_view(old(out)@).push(line_view(l)));
}

fn blank_line(out: &mut Vec<Vec<(String, Tone)>>)
    ensures
        lines_view(final(out)@) == lines_view(old(out)@).push(Seq::empty()),
{
    let l: Vec<(String, Tone)> = Vec::new();
    assert(line_view(l) =~= Seq::<(Seq<char>, Tone)>::empty());
    add_line(out, l);
}

fn text(s: &str) -> (r: String)
    ensures
        r@ == s@,
{
    owned(s)
}

/// `n` copies of a character.
pub open spec fn repeated(c: char, n: nat) -> Seq<char> {
    Seq::new(n, |i: int| c)
}

fn repeat_char(c: char, n: usize) -> (r: String)
    ensures
        r@ == repeated(c, n as nat),
{
    let mut out: Vec<char> = Vec::new();
    let mut i: usize = 0;
    while i < n
        invariant
            i <= n,
            out@ == repeated(c, i as nat),
        decreases n - i,
    {
        out.push(c);
        i = i + 1;
        assert(out@ =~= repeated(c, i as nat));
    }
    string_from_chars(out.as_slice())
}

/// The icon of an entry kind.
pub open spec fn icon_of(k: EntryKind) -> Seq<char> {
    match k {
        EntryKind::Password => "[P]"@,
        EntryKind::Note => "[N]"@,
    }
}

fn icon(k: EntryKind) -> (r: &'static str)
    ensures
        r@ == icon_of(k),
{
    match k {
        EntryKind::Password => "[P]",
        EntryKind::Note => "[N]",
    }
}

/// The separator line of the entry view in a frame `width` columns wide inside.
pub open spec fn separator_line(width: usize) -> Seq<(Seq<char>, Tone)> {
    seq![("  "@ + repeated('─', (if width >= 4 { width - 4 } else { 0 }) as nat), Tone::Muted)]
}

fn add_separator(out: &mut Vec<Vec<(String, Tone)>>, width: usize)
    ensures
        lines_view(final(out)@) == lines_view(old(out)@).push(separator_line(width)),
{
    let dashes = repeat_char('─', if width >= 4 { width - 4 } else { 0 });
    let s = concat("  ", dashes.as_str());
    add_line(out, line1(s, Tone::Muted));
}

/// The head of the entry view: name with icon and favourite mark, then the
/// folder and the tags when there are any.
pub open spec fn header_lines(e: EntryView) -> Seq<Seq<(Seq<char>, Tone)>> {
    seq![
        Seq::empty(),
        seq![("  "@, Tone::Plain), (icon_of(e.kind) + " "@ + e.name + (if e.favorite { " ★"@ } else { ""@ }), Tone::Title)],
    ] + (if e.folder.len() > 0 {
        seq![seq![("  "@, Tone::Plain), ("/"@ + e.folder, Tone::Folder)]]
    } else {
        Seq::empty()
    }) + (if e.tags.len() > 0 {
        seq![seq![("  "@, Tone::Plain), (join(hashed(e.tags), " "@), Tone::Tag)]]
    } else {
        Seq::empty()
    })
}

fn add_header(out: &mut Vec<Vec<(String, Tone)>>, e: &Entry)
    ensures
        lines_view(final(out)@) == lines_view(old(out)@) + header_lines(e@),
{
    let ghost start = lines_view(out@);
    blank_line(out);
    let fav = if e.favorite { " ★" } else { "" };
    proof {
        reveal_strlit("");
    }
    let head = concat(icon(e.kind), " ");
    let head = concat(head.as_str(), e.name.as_str());
    let head = concat(head.as_str(), fav);
    add_line(out, line2(text("  "), Tone::Plain, head, Tone::Title));
    let ghost after_name = lines_view(out@);
    if !e.folder.as_str().is_empty() {
        let f = concat("/", e.folder.as_str());
        add_line(out, line2(text("  "), Tone::Plain, f, Tone::Folder));
    }
    let ghost after_folder = lines_view(out@);
    if e.tags.len() > 0 {
        let t = tags_display(&e.tags);
        add_line(out, line2(text("  "), Tone::Plain, t, Tone::Tag));
    }
    proof {
        let h = header_lines(e@);
        assert(e@.tags == views(e.tags@));
        assert(lines_view(out@) =~= start + h);
    }
}

/// The password line(s) of the entry view: the password in the clear with
/// its strength when revealed, else a mask of its length and a hint.
pub open spec fn password_lines(a: App, e: EntryView) -> Seq<Seq<(Seq<char>, Tone)>> {
    if a.show_password {
        let score = strength_score(vstd::utf8::encode_utf8(e.password).len() as usize as int, e.password);
        seq![
            seq![("  Pass  "@, Tone::Muted), (e.password, Tone::Secret)],
            seq![
                ("        "@, Tone::Plain),
                (strength_bar(score) + " "@ + strength_label(score), Tone::Colored(strength_color(strength_label(score)))),
            ],
        ]
    } else {
        seq![
            seq![
                ("  Pass  "@, Tone::Muted),
                (repeated('●', mask_width(vstd::utf8::encode_utf8(e.password).len() as usize) as nat), Tone::Muted),
                ("  p to reveal"@, Tone::Hint),
            ],
        ]
    }
}

fn add_password(out: &mut Vec<Vec<(String, Tone)>>, app: &App, e: &Entry)
    ensures
        lines_view(final(out)@) == lines_view(old(out)@) + password_lines(*app, e@),
{
    let ghost start = lines_view(out@);
    if app.show_password {
        add_line(out, line2(text("  Pass  "), Tone::Muted, crate::text::copy_string(&e.password), Tone::Secret));
        let (_, label, bar) = password_strength_score(e.password.as_str());
        let c = strength_color_from_label(label);
        let s = concat(bar, " ");
        let s = concat(s.as_str(), label);
        add_line(out, line2(text("        "), Tone::Plain, s, Tone::Colored(c)));
    } else {
        let mask = password_mask(e.password.as_str());
        assert(mask@ =~= repeated('●', mask_width(vstd::utf8::encode_utf8(e.password@).len() as usize) as nat));
        add_line(out, line3(text("  Pass  "), Tone::Muted, mask, Tone::Muted, text("  p to reveal"), Tone::Hint));
    }
    assert(lines_view(out@) =~= start + password_lines(*app, e@));
}

/// A line without the `\r` of a `\r\n` ending.
pub open spec fn without_cr(l: Seq<char>) -> Seq<char> {
    if l.len() > 0 && l.last() == '\r' {
        l.drop_last()
    } else {
        l
    }
}

/// The lines of a text, as `str::lines` gives them: split at `\n`, a
/// `\r` before a `\n` dropped, no line after a final `\n`, none for an
/// empty text.
pub open spec fn text_lines(s: Seq<char>) -> Seq<Seq<char>> {
    if s.len() == 0 {
        Seq::empty()
    } else {
        let parts = split_on(s, '\n');
        let body = if s.last() == '\n' { parts.drop_last() } else { parts };
        Seq::new(body.len(), |i: int| if i < parts.len() - 1 { without_cr(body[i]) } else { body[i] })
    }
}

/// The lines of a text (see [`text_lines`]).
pub fn lines_of(s: &str) -> (r: Vec<String>)
    ensures
        views(r@) == text_lines(s@),
{
    let cs = crate::text::chars_of(s);
    let mut r: Vec<String> = Vec::new();
    if cs.len() == 0 {
        assert(views(r@) =~= text_lines(s@));
        return r;
    }
    let parts = split_chars(&cs, '\n');
    let ghost sp = split_on(cs@, '\n');
    proof {
        crate::text::lemma_split_nonempty(cs@, '\n');
        assert(parts@.map_values(|p: Vec<char>| p@).len() == parts@.len());
    }
    let n = parts.len();
    let body_len = if cs[cs.len() - 1] == '\n' { n - 1 } else { n };
    let mut i: usize = 0;
    while i < body_len
        invariant
            s@.len() > 0,
            cs@ == s@,
            sp == split_on(cs@, '\n'),
            parts@.map_values(|p: Vec<char>| p@) == sp,
            n == parts@.len(),
            n == sp.len(),
            n >= 1,
            body_len <= n,
            body_len == (if cs@.last() == '\n' { n - 1 } else { n as int }),
            i <= body_len,
            views(r@) == text_lines(s@).take(i as int),
        decreases body_len - i,
    {
        let p = &parts[i];
        proof {
            assert(parts@.map_values(|q: Vec<char>| q@)[i as int] == parts@[i as int]@);
        }
        let line = if i + 1 < n && p.len() > 0 && p[p.len() - 1] == '\r' {
            let mut q: Vec<char> = Vec::new();
            let mut k: usize = 0;
            while k < p.len() - 1
                invariant
                    p@.len() > 0,
                    k <= p@.len() - 1,
                    q@ == p@.take(k as int),
                decreases p@.len() - 1 - k,
            {
                q.push(p[k]);
                k = k + 1;
                assert(q@ =~= p@.take(k as int));
            }
            assert(q@ =~= p@.drop_last());
            string_from_chars(q.as_slice())
        } else {
            string_from_chars(p.as_slice())
        };
        let ghost before = r@;
        r.push(line);
        proof {
            let body = if s@.last() == '\n' { sp.drop_last() } else { sp };
            assert(body[i as int] == sp[i as int]);
            assert(views(r@) =~= views(before).push(line@));
            assert(text_lines(s@)[i as int] == line@);
            assert(views(r@) =~= text_lines(s@).take(i + 1));
        }
        i = i + 1;
    }
    proof {
        assert(text_lines(s@).len() == body_len);
        assert(text_lines(s@).take(body_len as int) =~= text_lines(s@));
    }
    r
}

/// The one-time-password lines of the entry view, from the code and the
/// seconds left when the secret gave one (`totp`).
pub open spec fn totp_lines(a: App, e: EntryView, width: usize, totp: Option<(Seq<char>, u64)>) -> Seq<Seq<(Seq<char>, Tone)>> {
    if e.totp_secret.len() > 0 {
        seq![separator_line(width)] + match totp {
            Some((code, rem)) => seq![
                seq![
                    ("  TOTP  "@, Tone::Muted),
                    (code.take(3) + " "@ + code.skip(3), Tone::Secret),
                    ("  "@ + decimal(rem as nat) + "s "@, Tone::Muted),
                    (repeated('█', timer_fill(rem) as nat) + repeated('░', (20 - timer_fill(rem)) as nat), Tone::Colored(timer_color(a.theme, rem))),
                ],
            ],
            None => seq![seq![("  TOTP  "@, Tone::Muted), ("Invalid secret"@, Tone::Warning)]],
        }
    } else {
        Seq::empty()
    }
}

/// A code and the seconds it stays valid, as [`crate::totp::generate_totp`] gives them.
pub open spec fn totp_fits(totp: Option<(String, u64)>) -> bool {
    totp matches Some(t) ==> t.0@.len() == 6 && t.1 <= 30
}

/// The plain values of a code result.
pub open spec fn totp_view(totp: Option<(String, u64)>) -> Option<(Seq<char>, u64)> {
    match totp {
        Some(t) => Some((t.0@, t.1)),
        None => None,
    }
}

fn add_totp(out: &mut Vec<Vec<(String, Tone)>>, app: &App, e: &Entry, width: usize, totp: &Option<(String, u64)>)
    requires
        totp_fits(*totp),
    ensures
        lines_view(final(out)@) == lines_view(old(out)@) + totp_lines(*app, e@, width, totp_view(*totp)),
{
    let ghost start = lines_view(out@);
    if !e.totp_secret.as_str().is_empty() {
        add_separator(out, width);
        match totp {
            Some((code, rem)) => {
                let shown = spaced_code(code.as_str());
                let secs = decimal_string(*rem);
                let secs = concat("  ", secs.as_str());
                let secs = concat(secs.as_str(), "s ");
                let filled = code_timer_fill(*rem);
                let full = repeat_char('█', filled);
                let rest = repeat_char('░', 20 - filled);
                let bar = concat(full.as_str(), rest.as_str());
                let c = code_timer_color(&app.theme, *rem);
                add_line(out, line4(text("  TOTP  "), Tone::Muted, shown, Tone::Secret, secs, Tone::Muted, bar, Tone::Colored(c)));
            },
            None => {
                add_line(out, line2(text("  TOTP  "), Tone::Muted, text("Invalid secret"), Tone::Warning));
            },
        }
    }
    assert(lines_view(out@) =~= start + totp_lines(*app, e@, width, totp_view(*totp)));
}

/// How many old passwords the view lists of `n`.
pub open spec fn history_count(n: nat) -> nat {
    if n < HISTORY_SHOWN { n } else { HISTORY_SHOWN as nat }
}

/// The password-history lines of the entry view: when shown, the count and
/// the newest five old passwords with their dates, newest first; otherwise
/// the count and a hint.
pub open spec fn history_lines(a: App, e: EntryView, width: usize) -> Seq<Seq<(Seq<char>, Tone)>> {
    let h = e.password_history;
    let n = h.len();
    if n > 0 {
        seq![separator_line(width)] + if a.show_history {
            seq![seq![("  History "@, Tone::Muted), ("("@ + decimal(n) + " entries)"@, Tone::Muted)]] + Seq::new(
                history_count(n),
                |i: int| seq![
                    ("    "@ + utc_formatted(h[n - 1 - i].changed_at, "%Y-%m-%d"@) + " "@, Tone::Muted),
                    (h[n - 1 - i].password, Tone::Warning),
                ],
            )
        } else {
            seq![seq![("  History "@, Tone::Muted), (decimal(n) + " entries "@, Tone::Muted), ("H to show"@, Tone::Hint)]]
        }
    } else {
        Seq::empty()
    }
}

fn add_history(out: &mut Vec<Vec<(String, Tone)>>, app: &App, e: &Entry, width: usize)
    ensures
        lines_view(final(out)@) == lines_view(old(out)@) + history_lines(*app, e@, width),
{
    let ghost start = lines_view(out@);
    let ghost h = e@.password_history;
    let n = e.password_history.len();
    if n > 0 {
        add_separator(out, width);
        let count = decimal_string(n as u64);
        if app.show_history {
            let c = concat("(", count.as_str());
            let c = concat(c.as_str(), " entries)");
            add_line(out, line2(text("  History "), Tone::Muted, c, Tone::Muted));
            let ghost mid = lines_view(out@);
            let recent = recent_history(&e.password_history);
            let mut i: usize = 0;
            while i < recent.len()
                invariant
                    n == h.len(),
                    h == crate::vault::history_views(e.password_history@),
                    recent@.len() == history_count(n as nat),
                    forall|k: int| 0 <= k < recent@.len() ==> {
                        let x = #[trigger] e.password_history@[e.password_history@.len() - 1 - k];
                        &&& recent@[k].0@ == utc_formatted(x.changed_at, "%Y-%m-%d"@)
                        &&& recent@[k].1@ == x.password@
                    },
                    i <= recent@.len(),
                    lines_view(out@) == mid + Seq::new(
                        i as nat,
                        |k: int| seq![
                            ("    "@ + utc_formatted(h[n - 1 - k].changed_at, "%Y-%m-%d"@) + " "@, Tone::Muted),
                            (h[n - 1 - k].password, Tone::Warning),
                        ],
                    ),
                decreases recent@.len() - i,
            {
                let d = concat("    ", recent[i].0.as_str());
                let d = concat(d.as_str(), " ");
                let pw = crate::text::copy_string(&recent[i].1);
                let ghost before = lines_view(out@);
                proof {
                    let x = e.password_history@[e.password_history@.len() - 1 - i];
                    assert(h[n - 1 - i] == x@);
                }
                add_line(out, line2(d, Tone::Muted, pw, Tone::Warning));
                i = i + 1;
                proof {
                    assert(lines_view(out@) =~= mid + Seq::new(
                        i as nat,
                        |k: int| seq![
                            ("    "@ + utc_formatted(h[n - 1 - k].changed_at, "%Y-%m-%d"@) + " "@, Tone::Muted),
                            (h[n - 1 - k].password, Tone::Warning),
                        ],
                    ));
                }
            }
        } else {
            let c = concat(count.as_str(), " entries ");
            add_line(out, line3(text("  History "), Tone::Muted, c, Tone::Muted, text("H to show"), Tone::Hint));
        }
    }
    assert(lines_view(out@) =~= start + history_lines(*app, e@, width));
}

/// The credential lines of the entry view (password entries only): the
/// username, the password (see [`password_lines`]), the URL, the code and
/// the password history.
pub open spec fn credential_lines(a: App, e: EntryView, width: usize, totp: Option<(Seq<char>, u64)>) -> Seq<Seq<(Seq<char>, Tone)>> {
    if e.kind == EntryKind::Password {
        (if e.username.len() > 0 {
            seq![seq![("  User  "@, Tone::Muted), (e.username, Tone::Plain)]]
        } else {
            Seq::empty()
        }) + password_lines(a, e) + (if e.url.len() > 0 {
            seq![seq![("  URL   "@, Tone::Muted), (e.url, Tone::Plain)]]
        } else {
            Seq::empty()
        }) + totp_lines(a, e, width, totp) + history_lines(a, e, width)
    } else {
        Seq::empty()
    }
}

fn add_credentials(out: &mut Vec<Vec<(String, Tone)>>, app: &App, e: &Entry, width: usize, totp: &Option<(String, u64)>)
    requires
        totp_fits(*totp),
    ensures
        lines_view(final(out)@) == lines_view(old(out)@) + credential_lines(*app, e@, width, totp_view(*totp)),
{
    let ghost start = lines_view(out@);
    match e.kind {
        EntryKind::Password => {
            if !e.username.as_str().is_empty() {
                add_line(out, line2(text("  User  "), Tone::Muted, crate::text::copy_string(&e.username), Tone::Plain));
            }
            let ghost s1 = lines_view(out@);
            add_password(out, app, e);
            let ghost s2 = lines_view(out@);
            if !e.url.as_str().is_empty() {
                add_line(out, line2(text("  URL   "), Tone::Muted, crate::text::copy_string(&e.url), Tone::Plain));
            }
            let ghost s3 = lines_view(out@);
            add_totp(out, app, e, width, totp);
            let ghost s4 = lines_view(out@);
            add_history(out, app, e, width);
            proof {
                let c = credential_lines(*app, e@, width, totp_view(*totp));
                assert(lines_view(out@) =~= start + c);
            }
        },
        EntryKind::Note => {
            assert(lines_view(out@) =~= start + credential_lines(*app, e@, width, totp_view(*totp)));
        },
    }
}

/// The notes section of the entry view: a separator, a label and the lines
/// of the notes, when there are notes.
pub open spec fn notes_lines(e: EntryView, width: usize) -> Seq<Seq<(Seq<char>, Tone)>> {
    if e.notes.len() > 0 {
        seq![separator_line(width), seq![("  Notes"@, Tone::Muted)]] + Seq::new(
            text_lines(e.notes).len(),
            |i: int| seq![("  "@ + text_lines(e.notes)[i], Tone::Plain)],
        )
    } else {
        Seq::empty()
    }
}

fn add_notes(out: &mut Vec<Vec<(String, Tone)>>, e: &Entry, width: usize)
    ensures
        lines_view(final(out)@) == lines_view(old(out)@) + notes_lines(e@, width),
{
    let ghost start = lines_view(out@);
    if !e.notes.as_str().is_empty() {
        add_separator(out, width);
        add_line(out, line1(text("  Notes"), Tone::Muted));
        let ghost mid = lines_view(out@);
        let ls = lines_of(e.notes.as_str());
        let ghost tl = text_lines(e.notes@);
        let mut i: usize = 0;
        while i < ls.len()
            invariant
                views(ls@) == tl,
                i <= ls@.len(),
                lines_view(out@) == mid + Seq::new(i as nat, |k: int| seq![("  "@ + tl[k], Tone::Plain)]),
            decreases ls@.len() - i,
        {
            proof {
                assert(views(ls@)[i as int] == ls@[i as int]@);
            }
            let l = concat("  ", ls[i].as_str());
            add_line(out, line1(l, Tone::Plain));
            i = i + 1;
            assert(lines_view(out@) =~= mid + Seq::new(i as nat, |k: int| seq![("  "@ + tl[k], Tone::Plain)]));
        }
    }
    assert(lines_view(out@) =~= start + notes_lines(e@, width));
}

/// The foot of the entry view: a blank line and when the entry last changed.
pub open spec fn footer_lines(e: EntryView) -> Seq<Seq<(Seq<char>, Tone)>> {
    seq![
        Seq::empty(),
        seq![("  "@, Tone::Plain), ("Modified "@ + utc_formatted(e.modified_at, "%Y-%m-%d %H:%M"@), Tone::Muted)],
    ]
}

/// The lines of the entry view for entry `e`, in a frame `width` columns
/// wide inside, with the one-time-password result `totp` (the code and the
/// seconds left, or `None` for a secret that gives no code).
pub open spec fn view_text(a: App, e: EntryView, width: usize, totp: Option<(Seq<char>, u64)>) -> Seq<Seq<(Seq<char>, Tone)>> {
    header_lines(e) + seq![separator_line(width)] + credential_lines(a, e, width, totp) + notes_lines(e, width)
        + footer_lines(e)
}

/// The lines of the entry view for the selected entry (see [`view_text`]).
/// `totp` is what [`crate::totp::generate_totp`] gave for the entry's secret.
pub fn view_lines(app: &App, width: usize, totp: &Option<(String, u64)>) -> (r: Vec<Vec<(String, Tone)>>)
    requires
        self_selected(*app) is Some,
        totp_fits(*totp),
    ensures
        lines_view(r@) == view_text(*app, self_selected(*app)->0, width, totp_view(*totp)),
{
    let e = match app.selected_entry() {
        Some(e) => e,
        None => {
            return Vec::new();
        },
    };
    let mut out: Vec<Vec<(String, Tone)>> = Vec::new();
    assert(lines_view(out@) =~= Seq::<Seq<(Seq<char>, Tone)>>::empty());
    add_header(&mut out, e);
    add_separator(&mut out, width);
    add_credentials(&mut out, app, e, width, totp);
    add_notes(&mut out, e, width);
    let ghost before = lines_view(out@);
    blank_line(&mut out);
    let m = date_time_text(e.modified_at);
    let m = concat("Modified ", m.as_str());
    add_line(&mut out, line2(text("  "), Tone::Plain, m, Tone::Muted));
    proof {
        assert(lines_view(out@) =~= before + footer_lines(e@));
        assert(lines_view(out@) =~= view_text(*app, self_selected(*app)->0, width, totp_view(*totp)));
    }
    out
}

/// The title of the entry view's frame.
pub open spec fn view_title_of(e: EntryView) -> Seq<char> {
    " "@ + icon_of(e.kind) + " Detail "@
}

/// The title of the entry view's frame (see [`view_title_of`]).
pub fn view_title(entry: &Entry) -> (r: String)
    ensures
        r@ == view_title_of(entry@),
{
    let t = concat(" ", icon(entry.kind));
    concat(t.as_str(), " Detail ")
}

/// A text padded with spaces to `w` characters (left-aligned).
pub open spec fn padded(s: Seq<char>, w: usize) -> Seq<char> {
    if s.len() < w {
        s + repeated(' ', (w - s.len()) as nat)
    } else {
        s
    }
}

fn pad(s: String, w: usize) -> (r: String)
    ensures
        r@ == padded(s@, w),
{
    let n = crate::text::chars_of(s.as_str()).len();
    if n < w {
        let sp = repeat_char(' ', w - n);
        concat(s.as_str(), sp.as_str())
    } else {
        s
    }
}

/// Two spaces per level.
fn indent(depth: usize) -> (r: String)
    ensures
        r@ == repeated(' ', (2 * depth) as nat),
{
    let mut out: Vec<char> = Vec::new();
    let mut i: usize = 0;
    while i < depth
        invariant
            i <= depth,
            out@ == repeated(' ', (2 * i) as nat),
        decreases depth - i,
    {
        out.push(' ');
        out.push(' ');
        i = i + 1;
        assert(out@ =~= repeated(' ', (2 * i) as nat));
    }
    string_from_chars(out.as_slice())
}

/// The pieces of row `row` of the entry list on a screen `width` columns
/// wide. A folder heading: its indent, the collapse arrow with its last
/// path component, and how many entries lie in or below it. An entry: its
/// favourite mark, indent and icon, then its name, its detail (see
/// [`crate::display::detail_of`]) and its tags, each cut to its column.
pub open spec fn row_text(a: App, row: int, width: u16) -> Seq<(Seq<char>, Tone)> {
    match a.list_rows@[row] {
        crate::app::ListRow::Folder(f) => seq![
            (" "@ + repeated(' ', (2 * crate::text::count_char(f@, '/')) as nat) + " "@, Tone::Plain),
            ((if views(a.collapsed_folders@).contains(f@) { ">"@ } else { "v"@ }) + " [D] "@
                + crate::display::last_segment(f@), Tone::FolderStrong),
            ("  ("@ + decimal(crate::display::entries_under(a.vault@, f@)) + ")"@, Tone::Muted),
        ],
        crate::app::ListRow::Entry(i) => {
            let e = a.vault@[i as int];
            let (nw, tw, dw) = crate::display::column_widths(width);
            seq![
                ((if e.favorite { "*"@ } else { " "@ }), Tone::Hint),
                (repeated(' ', (2 * crate::display::depth_of(a, e)) as nat) + icon_of(e.kind) + " "@, Tone::Plain),
                (padded(crate::display::truncated(e.name, nw), nw), Tone::Strong),
                (padded(crate::display::truncated(crate::display::detail_of(e), dw), dw), Tone::Muted),
                (if e.tags.len() == 0 {
                    Seq::empty()
                } else {
                    crate::display::truncated(join(hashed(e.tags), " "@), tw)
                }, Tone::Tag),
            ]
        },
    }
}

/// The pieces of a row of the entry list (see [`row_text`]).
pub fn list_row_text(app: &App, row: usize, width: u16) -> (r: Vec<(String, Tone)>)
    requires
        row < app.list_rows@.len(),
        crate::listing::rows_valid(*app),
        app.list_rows@[row as int] matches crate::app::ListRow::Entry(i) ==> app.vault@[i as int].folder.len() < usize::MAX,
    ensures
        line_view(r) == row_text(*app, row as int, width),
{
    match &app.list_rows[row] {
        crate::app::ListRow::Folder(f) => {
            let fc = crate::text::chars_of(f.as_str());
            let depth = crate::text::count_chars(&fc, '/');
            let ind = indent(depth);
            let lead = concat(" ", ind.as_str());
            let lead = concat(lead.as_str(), " ");
            let arrow = if crate::display::is_folder_collapsed(app, f.as_str()) { ">" } else { "v" };
            let name = crate::display::folder_display_name(f.as_str());
            let head = concat(arrow, " [D] ");
            let head = concat(head.as_str(), name.as_str());
            let n = crate::display::folder_entry_count(&app.vault, f.as_str());
            let count = decimal_string(n as u64);
            let count = concat("  (", count.as_str());
            let count = concat(count.as_str(), ")");
            line3(lead, Tone::Plain, head, Tone::FolderStrong, count, Tone::Muted)
        },
        crate::app::ListRow::Entry(i) => {
            proof {
                assert(app.list_rows@[row as int] matches crate::app::ListRow::Entry(x) ==> x < app.vault.entries@.len());
            }
            let e = &app.vault.entries[*i];
            let (nw, tw, dw) = crate::display::list_columns(width);
            let fav = if e.favorite { "*" } else { " " };
            let depth = crate::display::entry_depth(app, e);
            let ind = indent(depth);
            let lead = concat(ind.as_str(), icon(e.kind));
            let lead = concat(lead.as_str(), " ");
            let name = pad(crate::display::truncate_str(e.name.as_str(), nw), nw);
            let d = crate::display::entry_detail(e);
            let detail = pad(crate::display::truncate_str(d.as_str(), dw), dw);
            let tags = if e.tags.len() == 0 {
                String::new()
            } else {
                let t = tags_display(&e.tags);
                crate::display::truncate_str(t.as_str(), tw)
            };
            proof {
                assert(e@.tags == views(e.tags@));
            }
            let mut l: Vec<(String, Tone)> = Vec::new();
            l.push((text(fav), Tone::Hint));
            l.push((lead, Tone::Plain));
            l.push((name, Tone::Strong));
            l.push((detail, Tone::Muted));
            l.push((tags, Tone::Tag));
            assert(line_view(l) =~= row_text(*app, row as int, width));
            l
        },
    }
}

/// A hidden password does not reach the entry view: the view is the same
/// for any password of the same length in bytes, and its password line is
/// the mask with the reveal hint. A revealed password is shown as it is.
pub proof fn law_hidden_password_not_shown(
    a: App,
    e: EntryView,
    other: Seq<char>,
    width: usize,
    totp: Option<(Seq<char>, u64)>,
)
    requires
        vstd::utf8::encode_utf8(other).len() == vstd::utf8::encode_utf8(e.password).len(),
    ensures
        !a.show_password ==> view_text(a, e, width, totp) == view_text(a, EntryView { password: other, ..e }, width, totp),
        !a.show_password ==> password_lines(a, e) == seq![
            seq![
                ("  Pass  "@, Tone::Muted),
                (repeated('●', mask_width(vstd::utf8::encode_utf8(e.password).len() as usize) as nat), Tone::Muted),
                ("  p to reveal"@, Tone::Hint),
            ],
        ],
        a.show_password ==> password_lines(a, e)[0] == seq![("  Pass  "@, Tone::Muted), (e.password, Tone::Secret)],
{
}

/// Two vaults that differ at most in the passwords and password histories
/// of their entries.
pub open spec fn same_but_secrets(v: Seq<EntryView>, w: Seq<EntryView>) -> bool {
    &&& v.len() == w.len()
    &&& forall|i: int| 0 <= i < v.len() ==> #[trigger] w[i] == (EntryView {
        password: w[i].password,
        password_history: w[i].password_history,
        ..v[i]
    })
}

proof fn lemma_entries_under_secrets(v: Seq<EntryView>, w: Seq<EntryView>, f: Seq<char>)
    requires
        same_but_secrets(v, w),
    ensures
        crate::display::entries_under(v, f) == crate::display::entries_under(w, f),
    decreases v.len(),
{
    if v.len() > 0 {
        assert(same_but_secrets(v.drop_last(), w.drop_last())) by {
            assert forall|i: int| 0 <= i < v.drop_last().len() implies #[trigger] w.drop_last()[i] == (EntryView {
                password: w.drop_last()[i].password,
                password_history: w.drop_last()[i].password_history,
                ..v.drop_last()[i]
            }) by {
                assert(w[i] == (EntryView { password: w[i].password, password_history: w[i].password_history, ..v[i] }));
            }
        }
        lemma_entries_under_secrets(v.drop_last(), w.drop_last(), f);
        assert(w[w.len() - 1] == (EntryView {
            password: w[w.len() - 1].password,
            password_history: w[w.len() - 1].password_history,
            ..v[v.len() - 1]
        }));
    }
}

/// The entry list never shows a password or an old password: its rows are
/// the same whatever the entries' passwords and password histories are.
pub proof fn law_list_rows_hide_secrets(a: App, b: App, row: int, width: u16)
    requires
        b == (App { vault: b.vault, ..a }),
        same_but_secrets(a.vault@, b.vault@),
        0 <= row < a.list_rows@.len(),
        crate::listing::rows_valid(a),
    ensures
        row_text(a, row, width) == row_text(b, row, width),
{
    match a.list_rows@[row] {
        crate::app::ListRow::Folder(f) => {
            lemma_entries_under_secrets(a.vault@, b.vault@, f@);
        },
        crate::app::ListRow::Entry(i) => {
            assert(a.list_rows@[row] matches crate::app::ListRow::Entry(x) ==> x < a.vault.entries@.len());
            assert(b.vault@[i as int] == (EntryView {
                password: b.vault@[i as int].password,
                password_history: b.vault@[i as int].password_history,
                ..a.vault@[i as int]
            }));
        },
    }
}

} // verus!
