//! Character-level text helpers. Unicode case mapping and the Unicode
//! alphanumeric class come from std through trusted wrappers with named
//! results; everything else here is verified.
use vstd::prelude::*;

verus! {

/// What `str::to_lowercase` gives for a string (Unicode lowercase mapping).
pub uninterp spec fn str_lower(s: Seq<char>) -> Seq<char>;

/// What `str::to_uppercase` gives for a string (Unicode uppercase mapping).
pub uninterp spec fn str_upper(s: Seq<char>) -> Seq<char>;

/// What `char::is_alphanumeric` gives (Unicode Alphabetic or Numeric).
pub uninterp spec fn char_is_alnum(c: char) -> bool;

/// Calls `str::to_lowercase`. Claimed: the result is the named lowercase mapping.
#[verifier::external_body]
pub(crate) fn to_lower(s: &str) -> (r: String)
    ensures
        r@ == str_lower(s@),
{
    s.to_lowercase()
}

/// Calls `str::to_uppercase`. Claimed: the result is the named uppercase mapping.
#[verifier::external_body]
pub(crate) fn to_upper(s: &str) -> (r: String)
    ensures
        r@ == str_upper(s@),
{
    s.to_uppercase()
}

/// Calls `char::is_alphanumeric`. Claimed: the result is the named class test.
#[verifier::external_body]
pub(crate) fn is_alphanumeric(c: char) -> (r: bool)
    ensures
        r == char_is_alnum(c),
{
    c.is_alphanumeric()
}

/// Calls `String::push`. Claimed: the character is appended.
#[verifier::external_body]
pub(crate) fn string_push(s: &mut String, c: char)
    ensures
        final(s)@ == old(s)@.push(c),
{
    s.push(c)
}

/// Calls `String::pop`. Claimed: the last character is removed and returned,
/// or nothing happens to an empty string.
#[verifier::external_body]
pub(crate) fn string_pop(s: &mut String) -> (r: Option<char>)
    ensures
        old(s)@.len() == 0 ==> r is None && final(s)@ == old(s)@,
        old(s)@.len() > 0 ==> r == Some(old(s)@.last()) && final(s)@ == old(s)@.drop_last(),
{
    s.pop()
}

/// The characters of a string, in order.
pub fn chars_of(s: &str) -> (r: Vec<char>)
    ensures
        r@ == s@,
{
    let mut r: Vec<char> = Vec::new();
    for c in it: s.chars()
        invariant
            r@ == it.seq().take(it.index() as int),
            it.seq() == s@,
    {
        r.push(c);
    }
    r
}

/// A string made of the given characters.
pub fn string_from_chars(cs: &[char]) -> (r: String)
    ensures
        r@ == cs@,
{
    let mut r = String::new();
    let mut i: usize = 0;
    while i < cs.len()
        invariant
            i <= cs@.len(),
            r@ == cs@.subrange(0, i as int),
        decreases cs@.len() - i,
    {
        string_push(&mut r, cs[i]);
        i = i + 1;
        assert(cs@.subrange(0, i as int) == cs@.subrange(0, i - 1).push(cs@[i - 1]));
    }
    assert(cs@.subrange(0, cs@.len() as int) == cs@);
    r
}

/// An owned copy of a string slice.
pub fn owned(s: &str) -> (r: String)
    ensures
        r@ == s@,
{
    s.to_owned()
}

/// A string followed by another.
pub fn concat(a: &str, b: &str) -> (r: String)
    ensures
        r@ == a@ + b@,
{
    let mut r = a.to_owned();
    r.append(b);
    r
}

} // verus!

verus! {

/// Whether two strings hold the same characters.
pub fn str_eq(a: &str, b: &str) -> (r: bool)
    ensures
        r == (a@ == b@),
{
    let ac = chars_of(a);
    let bc = chars_of(b);
    chars_eq(&ac, &bc)
}

/// Whether two character vectors are equal.
pub fn chars_eq(a: &Vec<char>, b: &Vec<char>) -> (r: bool)
    ensures
        r == (a@ == b@),
{
    if a.len() != b.len() {
        return false;
    }
    let mut i: usize = 0;
    while i < a.len()
        invariant
            a@.len() == b@.len(),
            i <= a@.len(),
            forall|j: int| 0 <= j < i ==> a@[j] == b@[j],
        decreases a@.len() - i,
    {
        if a[i] != b[i] {
            return false;
        }
        i = i + 1;
    }
    assert(a@ == b@);
    true
}

} // verus!

verus! {

/// `needle` occurs in `hay` as a contiguous run.
pub open spec fn has_sub(hay: Seq<char>, needle: Seq<char>) -> bool {
    exists|i: int| 0 <= i && i + needle.len() <= hay.len() && #[trigger] hay.subrange(i, i + needle.len()) == needle
}

/// `prefix` begins `s`.
pub open spec fn starts_with(s: Seq<char>, prefix: Seq<char>) -> bool {
    prefix.len() <= s.len() && s.subrange(0, prefix.len() as int) == prefix
}

fn occurs_at(hay: &Vec<char>, needle: &Vec<char>, i: usize) -> (r: bool)
    requires
        i + needle@.len() <= hay@.len(),
    ensures
        r == (hay@.subrange(i as int, i + needle@.len()) == needle@),
{
    assert(hay@.len() == hay.len());
    let mut k: usize = 0;
    while k < needle.len()
        invariant
            hay@.len() == hay.len(),
            i + needle@.len() <= hay@.len(),
            k <= needle@.len(),
            forall|j: int| 0 <= j < k ==> hay@[i + j] == needle@[j],
        decreases needle@.len() - k,
    {
        if hay[i + k] != needle[k] {
            assert(hay@.subrange(i as int, i + needle@.len())[k as int] != needle@[k as int]);
            return false;
        }
        k = k + 1;
    }
    assert(hay@.subrange(i as int, i + needle@.len()) == needle@);
    true
}

/// Whether `needle` occurs in `hay`.
pub fn contains_chars(hay: &Vec<char>, needle: &Vec<char>) -> (r: bool)
    ensures
        r == has_sub(hay@, needle@),
{
    if needle.len() > hay.len() {
        return false;
    }
    let last = hay.len() - needle.len();
    let mut i: usize = 0;
    loop
        invariant
            last + needle@.len() == hay@.len(),
            i <= last,
            forall|j: int| 0 <= j < i ==> #[trigger] hay@.subrange(j, j + needle@.len()) != needle@,
        decreases last - i,
    {
        if occurs_at(hay, needle, i) {
            return true;
        }
        if i == last {
            return false;
        }
        i = i + 1;
    }
}

/// Whether `needle` occurs in the string `hay`.
pub fn contains_str(hay: &str, needle: &str) -> (r: bool)
    ensures
        r == has_sub(hay@, needle@),
{
    let h = chars_of(hay);
    let n = chars_of(needle);
    contains_chars(&h, &n)
}

/// Whether `s` begins with `prefix`.
pub fn starts_with_chars(s: &Vec<char>, prefix: &Vec<char>) -> (r: bool)
    ensures
        r == starts_with(s@, prefix@),
{
    if prefix.len() > s.len() {
        return false;
    }
    occurs_at(s, prefix, 0)
}

/// An owned copy of a string.
pub fn copy_string(s: &String) -> (r: String)
    ensures
        r@ == s@,
{
    s.clone()
}

/// The views of a list of strings.
pub open spec fn views(v: Seq<String>) -> Seq<Seq<char>> {
    v.map_values(|s: String| s@)
}

/// An owned copy of a list of strings.
pub fn copy_strings(v: &Vec<String>) -> (r: Vec<String>)
    ensures
        views(r@) == views(v@),
{
    let mut r: Vec<String> = Vec::new();
    let mut i: usize = 0;
    while i < v.len()
        invariant
            i <= v@.len(),
            r@.len() == i,
            forall|j: int| 0 <= j < i ==> r@[j]@ == v@[j]@,
        decreases v@.len() - i,
    {
        r.push(v[i].clone());
        i = i + 1;
    }
    assert(views(r@) == views(v@));
    r
}

} // verus!

verus! {

/// The characters before the first `/` (all of them when there is none).
pub open spec fn first_segment(s: Seq<char>) -> Seq<char>
    decreases s.len(),
{
    if s.len() == 0 {
        s
    } else if s[0] == '/' {
        Seq::empty()
    } else {
        seq![s[0]] + first_segment(s.drop_first())
    }
}

proof fn lemma_first_segment_step(s: Seq<char>, i: int)
    requires
        0 <= i < s.len(),
        s[i] != '/',
    ensures
        first_segment(s.skip(i)) == seq![s[i]] + first_segment(s.skip(i + 1)),
{
    assert(s.skip(i).drop_first() =~= s.skip(i + 1));
}

/// The characters of a sequence before its first `/`.
pub fn first_segment_chars(s: &Vec<char>) -> (r: Vec<char>)
    ensures
        r@ == first_segment(s@),
{
    let mut r: Vec<char> = Vec::new();
    let mut i: usize = 0;
    assert(s@.skip(0) =~= s@);
    while i < s.len() && s[i] != '/'
        invariant
            i <= s@.len(),
            r@ == s@.take(i as int),
            first_segment(s@) == r@ + first_segment(s@.skip(i as int)),
        decreases s@.len() - i,
    {
        proof {
            lemma_first_segment_step(s@, i as int);
            assert(s@.take(i + 1) =~= s@.take(i as int).push(s@[i as int]));
            assert(r@ + (seq![s@[i as int]] + first_segment(s@.skip(i + 1))) =~= r@.push(s@[i as int]) + first_segment(s@.skip(i + 1)));
        }
        r.push(s[i]);
        i = i + 1;
    }
    proof {
        if i < s@.len() {
            assert(s@.skip(i as int)[0] == '/');
        } else {
            assert(s@.skip(i as int).len() == 0);
        }
        assert(r@ + first_segment(s@.skip(i as int)) =~= r@);
    }
    r
}

} // verus!

verus! {

/// The characters of `s` from position `from` on.
pub fn skip_chars(s: &Vec<char>, from: usize) -> (r: Vec<char>)
    requires
        from <= s@.len(),
    ensures
        r@ == s@.skip(from as int),
{
    let mut r: Vec<char> = Vec::new();
    let mut i = from;
    while i < s.len()
        invariant
            from <= i <= s@.len(),
            r@ == s@.subrange(from as int, i as int),
        decreases s@.len() - i,
    {
        r.push(s[i]);
        i = i + 1;
        assert(r@ =~= s@.subrange(from as int, i as int));
    }
    assert(r@ =~= s@.skip(from as int));
    r
}

/// The characters of `a` followed by those of `b`.
pub fn append_chars(a: &Vec<char>, b: &Vec<char>) -> (r: Vec<char>)
    ensures
        r@ == a@ + b@,
{
    let mut r: Vec<char> = Vec::new();
    let mut i: usize = 0;
    while i < a.len()
        invariant
            i <= a@.len(),
            r@ == a@.take(i as int),
        decreases a@.len() - i,
    {
        r.push(a[i]);
        i = i + 1;
        assert(r@ =~= a@.take(i as int));
    }
    let mut j: usize = 0;
    while j < b.len()
        invariant
            i == a@.len(),
            j <= b@.len(),
            r@ == a@ + b@.take(j as int),
        decreases b@.len() - j,
    {
        r.push(b[j]);
        j = j + 1;
        assert(r@ =~= a@ + b@.take(j as int));
    }
    assert(a@.take(a@.len() as int) =~= a@);
    assert(b@.take(b@.len() as int) =~= b@);
    r
}

/// Whether a list of strings holds a string with the given characters.
pub fn holds_string(list: &Vec<String>, x: &Vec<char>) -> (r: bool)
    ensures
        r == views(list@).contains(x@),
{
    let mut i: usize = 0;
    while i < list.len()
        invariant
            i <= list@.len(),
            forall|j: int| 0 <= j < i ==> list@[j]@ != x@,
        decreases list@.len() - i,
    {
        let cs = chars_of(list[i].as_str());
        if chars_eq(&cs, x) {
            assert(views(list@)[i as int] == x@);
            return true;
        }
        i = i + 1;
    }
    assert forall|j: int| 0 <= j < views(list@).len() implies views(list@)[j] != x@ by {
        assert(views(list@)[j] == list@[j]@);
    }
    false
}

} // verus!

verus! {

/// The character of a decimal digit (0 to 9).
pub open spec fn digit_of(d: nat) -> char {
    ((d + 48) as u8) as char
}

/// The decimal notation of a number, without leading zeros.
pub open spec fn decimal(n: nat) -> Seq<char>
    decreases n,
{
    if n < 10 {
        seq![digit_of(n)]
    } else {
        decimal(n / 10).push(digit_of(n % 10))
    }
}

/// The decimal notation of a number.
pub fn decimal_string(n: u64) -> (r: String)
    ensures
        r@ == decimal(n as nat),
    decreases n,
{
    if n < 10 {
        let mut r = String::new();
        string_push(&mut r, ((n + 48) as u8) as char);
        r
    } else {
        let mut r = decimal_string(n / 10);
        string_push(&mut r, ((n % 10 + 48) as u8) as char);
        r
    }
}

} // verus!

verus! {

/// The strings joined with a separator between each two.
pub open spec fn join(list: Seq<Seq<char>>, sep: Seq<char>) -> Seq<char>
    decreases list.len(),
{
    if list.len() == 0 {
        Seq::empty()
    } else if list.len() == 1 {
        list[0]
    } else {
        join(list.drop_last(), sep) + sep + list.last()
    }
}

/// Joins strings with a separator between each two.
pub fn join_strings(list: &Vec<String>, sep: &str) -> (r: String)
    ensures
        r@ == join(views(list@), sep@),
{
    let ghost lv = views(list@);
    let mut r = String::new();
    let mut i: usize = 0;
    while i < list.len()
        invariant
            lv == views(list@),
            i <= list@.len(),
            r@ == join(lv.take(i as int), sep@),
        decreases list@.len() - i,
    {
        proof {
            assert(lv.take(i + 1).drop_last() =~= lv.take(i as int));
            assert(lv.take(i + 1).last() == list@[i as int]@);
        }
        if i > 0 {
            r.append(sep);
        } else {
            proof {
                assert(lv.take(1)[0] == list@[0]@);
            }
        }
        r.append(list[i].as_str());
        i = i + 1;
    }
    proof {
        assert(lv.take(list@.len() as int) =~= lv);
    }
    r
}

} // verus!

verus! {

/// A white-space character in Unicode's sense (what `char::is_whitespace` tests).
pub open spec fn is_white_space(c: char) -> bool {
    ('\t' <= c && c <= '\r') || c == ' ' || c == '\u{85}' || c == '\u{a0}' || c == '\u{1680}' || ('\u{2000}'
        <= c && c <= '\u{200a}') || c == '\u{2028}' || c == '\u{2029}' || c == '\u{202f}' || c == '\u{205f}'
        || c == '\u{3000}'
}

/// The characters that trimming removes: `/` when `slash`, else white space.
pub open spec fn trimmed_char(c: char, slash: bool) -> bool {
    if slash {
        c == '/'
    } else {
        is_white_space(c)
    }
}

/// The sequence without its leading trimmed characters.
pub open spec fn trim_start(s: Seq<char>, slash: bool) -> Seq<char>
    decreases s.len(),
{
    if s.len() > 0 && trimmed_char(s[0], slash) {
        trim_start(s.drop_first(), slash)
    } else {
        s
    }
}

/// The sequence without its trailing trimmed characters.
pub open spec fn trim_end(s: Seq<char>, slash: bool) -> Seq<char>
    decreases s.len(),
{
    if s.len() > 0 && trimmed_char(s.last(), slash) {
        trim_end(s.drop_last(), slash)
    } else {
        s
    }
}

/// The sequence without leading and trailing white space (`str::trim`).
pub open spec fn trim_ws(s: Seq<char>) -> Seq<char> {
    trim_end(trim_start(s, false), false)
}

/// The sequence without leading and trailing `/` (`str::trim_matches('/')`).
pub open spec fn trim_slashes(s: Seq<char>) -> Seq<char> {
    trim_end(trim_start(s, true), true)
}

fn is_trimmed(c: char, slash: bool) -> (r: bool)
    ensures
        r == trimmed_char(c, slash),
{
    if slash {
        c == '/'
    } else {
        ('\t' <= c && c <= '\r') || c == ' ' || c == '\u{85}' || c == '\u{a0}' || c == '\u{1680}' || ('\u{2000}'
            <= c && c <= '\u{200a}') || c == '\u{2028}' || c == '\u{2029}' || c == '\u{202f}' || c == '\u{205f}'
            || c == '\u{3000}'
    }
}

/// Trims white space (or, for `slash`, `/`) from both ends.
pub fn trim_chars(s: &Vec<char>, slash: bool) -> (r: Vec<char>)
    ensures
        r@ == trim_end(trim_start(s@, slash), slash),
{
    let n = s.len();
    let mut lo: usize = 0;
    assert(s@.skip(0) =~= s@);
    while lo < n && is_trimmed(s[lo], slash)
        invariant
            n == s@.len(),
            lo <= n,
            trim_start(s@, slash) == trim_start(s@.skip(lo as int), slash),
        decreases n - lo,
    {
        assert(s@.skip(lo as int).drop_first() =~= s@.skip(lo + 1));
        lo = lo + 1;
    }
    assert(trim_start(s@, slash) == s@.skip(lo as int));
    let mut hi: usize = n;
    assert(s@.subrange(lo as int, n as int) =~= s@.skip(lo as int));
    while hi > lo && is_trimmed(s[hi - 1], slash)
        invariant
            n == s@.len(),
            lo <= hi <= n,
            trim_end(s@.skip(lo as int), slash) == trim_end(s@.subrange(lo as int, hi as int), slash),
        decreases hi,
    {
        assert(s@.subrange(lo as int, hi as int).drop_last() =~= s@.subrange(lo as int, hi - 1));
        hi = hi - 1;
    }
    let mut r: Vec<char> = Vec::new();
    let mut i = lo;
    while i < hi
        invariant
            lo <= i <= hi,
            hi <= s@.len(),
            r@ == s@.subrange(lo as int, i as int),
        decreases hi - i,
    {
        r.push(s[i]);
        i = i + 1;
        assert(r@ =~= s@.subrange(lo as int, i as int));
    }
    r
}

/// How many times a character occurs.
pub open spec fn count_char(s: Seq<char>, c: char) -> nat
    decreases s.len(),
{
    if s.len() == 0 {
        0
    } else {
        count_char(s.drop_last(), c) + if s.last() == c {
            1nat
        } else {
            0nat
        }
    }
}

/// Counts the occurrences of a character.
pub fn count_chars(s: &Vec<char>, c: char) -> (r: usize)
    ensures
        r == count_char(s@, c),
        r <= s@.len(),
{
    let mut r: usize = 0;
    let mut i: usize = 0;
    while i < s.len()
        invariant
            i <= s@.len(),
            r == count_char(s@.take(i as int), c),
            r <= i,
        decreases s@.len() - i,
    {
        assert(s@.take(i + 1).drop_last() =~= s@.take(i as int));
        if s[i] == c {
            r = r + 1;
        }
        i = i + 1;
    }
    assert(s@.take(s@.len() as int) =~= s@);
    r
}

/// The pieces between the occurrences of a delimiter (`str::split`).
pub open spec fn split_on(s: Seq<char>, d: char) -> Seq<Seq<char>>
    decreases s.len(),
{
    if s.len() == 0 {
        seq![Seq::empty()]
    } else {
        let prev = split_on(s.drop_last(), d);
        if s.last() == d {
            prev.push(Seq::empty())
        } else {
            prev.update(prev.len() - 1, prev.last().push(s.last()))
        }
    }
}

pub(crate) proof fn lemma_split_nonempty(s: Seq<char>, d: char)
    ensures
        split_on(s, d).len() >= 1,
    decreases s.len(),
{
    if s.len() > 0 {
        lemma_split_nonempty(s.drop_last(), d);
    }
}

/// Splits at every occurrence of a delimiter.
pub fn split_chars(s: &Vec<char>, d: char) -> (r: Vec<Vec<char>>)
    ensures
        r@.map_values(|p: Vec<char>| p@) == split_on(s@, d),
{
    let mut done: Vec<Vec<char>> = Vec::new();
    let mut cur: Vec<char> = Vec::new();
    let mut i: usize = 0;
    assert(s@.take(0) =~= Seq::<char>::empty());
    while i < s.len()
        invariant
            i <= s@.len(),
            done@.map_values(|p: Vec<char>| p@).push(cur@) == split_on(s@.take(i as int), d),
        decreases s@.len() - i,
    {
        let ghost prev = split_on(s@.take(i as int), d);
        proof {
            assert(s@.take(i + 1).drop_last() =~= s@.take(i as int));
            assert(s@.take(i + 1).last() == s@[i as int]);
        }
        if s[i] == d {
            let finished = cur;
            done.push(finished);
            cur = Vec::new();
            proof {
                assert(done@.map_values(|p: Vec<char>| p@) =~= prev);
                assert(done@.map_values(|p: Vec<char>| p@).push(cur@) =~= prev.push(Seq::empty()));
            }
        } else {
            let ghost before = done@.map_values(|p: Vec<char>| p@);
            cur.push(s[i]);
            proof {
                assert(before.push(cur@) =~= prev.update(prev.len() - 1, prev.last().push(s@[i as int])));
            }
        }
        i = i + 1;
    }
    assert(s@.take(s@.len() as int) =~= s@);
    let ghost before = done@.map_values(|p: Vec<char>| p@);
    done.push(cur);
    assert(done@.map_values(|p: Vec<char>| p@) =~= before.push(done@.last()@));
    done
}

} // verus!

verus! {

/// The tags typed into the tag field: the comma-separated pieces, trimmed,
/// the empty ones dropped.
pub open spec fn parse_tags(buf: Seq<char>) -> Seq<Seq<char>> {
    split_on(buf, ',').map_values(|p: Seq<char>| trim_ws(p)).filter(|t: Seq<char>| t.len() > 0)
}

proof fn lemma_filter_nonempty_push(s: Seq<Seq<char>>, x: Seq<char>)
    ensures
        s.push(x).filter(|t: Seq<char>| t.len() > 0) == if x.len() > 0 {
            s.filter(|t: Seq<char>| t.len() > 0).push(x)
        } else {
            s.filter(|t: Seq<char>| t.len() > 0)
        },
{
    reveal(Seq::filter);
    assert(s.push(x).drop_last() =~= s);
}

/// Parses the tag field: splits at commas, trims each piece, keeps the
/// non-empty ones.
pub fn parse_tag_list(buf: &str) -> (r: Vec<String>)
    ensures
        views(r@) == parse_tags(buf@),
{
    let cs = chars_of(buf);
    let pieces = split_chars(&cs, ',');
    let ghost pv = pieces@.map_values(|p: Vec<char>| p@);
    let ghost trimmed = pv.map_values(|p: Seq<char>| trim_ws(p));
    let mut r: Vec<String> = Vec::new();
    let mut i: usize = 0;
    while i < pieces.len()
        invariant
            pv == pieces@.map_values(|p: Vec<char>| p@),
            trimmed == pv.map_values(|p: Seq<char>| trim_ws(p)),
            pv == split_on(cs@, ','),
            i <= pieces@.len(),
            views(r@) == trimmed.take(i as int).filter(|t: Seq<char>| t.len() > 0),
        decreases pieces@.len() - i,
    {
        let t = trim_chars(&pieces[i], false);
        proof {
            assert(pv[i as int] == pieces@[i as int]@);
            assert(trimmed[i as int] == t@);
            assert(trimmed.take(i + 1) =~= trimmed.take(i as int).push(t@));
            lemma_filter_nonempty_push(trimmed.take(i as int), t@);
        }
        if t.len() > 0 {
            let ghost before = views(r@);
            r.push(string_from_chars(t.as_slice()));
            proof {
                assert(views(r@) =~= before.push(t@));
            }
        }
        i = i + 1;
    }
    proof {
        assert(trimmed.take(pieces@.len() as int) =~= trimmed);
    }
    r
}

} // verus!
