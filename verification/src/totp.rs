//! Time-based one-time passwords (RFC 6238: HMAC-SHA1, 30-second steps,
//! six digits) from a Base32 (RFC 4648) secret.
use vstd::prelude::*;
use crate::crypto::{hmac_sha1, hmac_sha1_tag, HMAC_SHA1_LEN};
use crate::text::{chars_of, str_upper, string_from_chars, to_upper};

verus! {

/// Length in seconds of one TOTP time step.
pub const TOTP_PERIOD: u64 = 30;

/// The value (0..32) of a Base32 letter, if it is one.
pub open spec fn b32_value(c: char) -> Option<u8> {
    if 'A' <= c && c <= 'Z' {
        Some((c as u32 - 'A' as u32) as u8)
    } else if '2' <= c && c <= '7' {
        Some((c as u32 - '2' as u32 + 26) as u8)
    } else {
        None
    }
}

/// The characters that remain after spaces and hyphens are removed.
pub open spec fn without_separators(s: Seq<char>) -> Seq<char> {
    s.filter(|c: char| c != ' ' && c != '-')
}

/// The string with every trailing `=` removed.
pub open spec fn trim_padding(s: Seq<char>) -> Seq<char>
    decreases s.len(),
{
    if s.len() > 0 && s.last() == '=' {
        trim_padding(s.drop_last())
    } else {
        s
    }
}

/// The Base32 symbols of a cleaned string: spaces and hyphens removed,
/// trailing padding trimmed.
pub open spec fn b32_symbols(s: Seq<char>) -> Seq<char> {
    trim_padding(without_separators(s))
}

/// Every symbol is a Base32 letter.
pub open spec fn all_b32(s: Seq<char>) -> bool {
    forall|i: int| 0 <= i < s.len() ==> (#[trigger] b32_value(s[i])) is Some
}

/// Bit `p` (0 = most significant) of a five-bit value.
pub open spec fn bit5(v: int, p: int) -> int {
    if p == 0 {
        (v / 16) % 2
    } else if p == 1 {
        (v / 8) % 2
    } else if p == 2 {
        (v / 4) % 2
    } else if p == 3 {
        (v / 2) % 2
    } else {
        v % 2
    }
}

/// Bit `j` of the bit string that the symbols spell, five bits per symbol.
pub open spec fn b32_bit(s: Seq<char>, j: int) -> int {
    bit5(b32_value(s[j / 5])->0 as int, j % 5)
}

/// Byte `i` of the decoded output: bits `8i .. 8i+8`, most significant first.
pub open spec fn b32_byte(s: Seq<char>, i: int) -> u8 {
    (b32_bit(s, 8 * i) * 128 + b32_bit(s, 8 * i + 1) * 64 + b32_bit(s, 8 * i + 2) * 32
        + b32_bit(s, 8 * i + 3) * 16 + b32_bit(s, 8 * i + 4) * 8 + b32_bit(s, 8 * i + 5) * 4
        + b32_bit(s, 8 * i + 6) * 2 + b32_bit(s, 8 * i + 7)) as u8
}

/// The bytes that valid Base32 symbols decode to: every complete group of
/// eight bits, a partial group at the end dropped.
pub open spec fn b32_bytes(s: Seq<char>) -> Seq<u8> {
    Seq::new((s.len() * 5 / 8) as nat, |i: int| b32_byte(s, i))
}

/// Decoding of an already upper-cased secret.
#[verifier::opaque]
pub open spec fn b32_decode_upper(s: Seq<char>) -> Option<Seq<u8>> {
    if all_b32(b32_symbols(s)) {
        Some(b32_bytes(b32_symbols(s)))
    } else {
        None
    }
}

proof fn lemma_filter_push(s: Seq<char>, c: char)
    ensures
        without_separators(s.push(c)) == if c != ' ' && c != '-' {
            without_separators(s).push(c)
        } else {
            without_separators(s)
        },
{
    reveal(Seq::filter);
    assert(s.push(c).drop_last() == s);
}

proof fn lemma_strip_twice(s: Seq<char>)
    ensures
        without_separators(without_separators(s)) == without_separators(s),
    decreases s.len(),
{
    if s.len() > 0 {
        let init = s.drop_last();
        let c = s.last();
        assert(init.push(c) == s);
        lemma_strip_twice(init);
        lemma_filter_push(init, c);
        if c != ' ' && c != '-' {
            lemma_filter_push(without_separators(init), c);
        }
    } else {
        assert(without_separators(s) =~= s) by {
            reveal(Seq::filter);
        }
    }
}

/// Spaces, hyphens and trailing `=` padding do not change what a secret
/// decodes to.
pub proof fn law_separators_and_padding_ignored(s: Seq<char>)
    ensures
        b32_decode_upper(without_separators(s)) == b32_decode_upper(s),
        b32_decode_upper(s.push('=')) == b32_decode_upper(s),
        b32_decode_upper(s.push(' ')) == b32_decode_upper(s),
        b32_decode_upper(s.push('-')) == b32_decode_upper(s),
{
    reveal(b32_decode_upper);
    lemma_strip_twice(s);
    lemma_filter_push(s, '=');
    lemma_filter_push(s, ' ');
    lemma_filter_push(s, '-');
    assert(without_separators(s).push('=').drop_last() == without_separators(s));
}

/// Removes the spaces and hyphens.
pub fn strip_separators(cs: &Vec<char>) -> (r: Vec<char>)
    ensures
        r@ == without_separators(cs@),
{
    let mut r: Vec<char> = Vec::new();
    let mut i: usize = 0;
    while i < cs.len()
        invariant
            i <= cs@.len(),
            r@ == without_separators(cs@.subrange(0, i as int)),
        decreases cs@.len() - i,
    {
        let c = cs[i];
        proof {
            lemma_filter_push(cs@.subrange(0, i as int), c);
            assert(cs@.subrange(0, i + 1) == cs@.subrange(0, i as int).push(c));
        }
        if c != ' ' && c != '-' {
            r.push(c);
        }
        i = i + 1;
    }
    proof {
        assert(cs@.subrange(0, cs@.len() as int) == cs@);
    }
    r
}

proof fn lemma_trim_padding_suffix(s: Seq<char>, k: int)
    requires
        0 <= k <= s.len(),
        forall|j: int| k <= j < s.len() ==> s[j] == '=',
    ensures
        trim_padding(s) == trim_padding(s.subrange(0, k)),
    decreases s.len() - k,
{
    if k < s.len() {
        assert(s.drop_last() == s.subrange(0, s.len() - 1));
        lemma_trim_padding_suffix(s.drop_last(), k);
        assert(s.drop_last().subrange(0, k) == s.subrange(0, k));
    } else {
        assert(s.subrange(0, k) == s);
    }
}

fn strip_padding(cs: &Vec<char>) -> (n: usize)
    ensures
        n <= cs@.len(),
        trim_padding(cs@) == cs@.subrange(0, n as int),
{
    let mut n = cs.len();
    while n > 0 && cs[n - 1] == '='
        invariant
            n <= cs@.len(),
            forall|j: int| n <= j < cs@.len() ==> cs@[j] == '=',
        decreases n,
    {
        n = n - 1;
    }
    proof {
        lemma_trim_padding_suffix(cs@, n as int);
        let t = cs@.subrange(0, n as int);
        if n > 0 {
            assert(t.last() == cs@[n - 1]);
        }
    }
    n
}

fn b32_symbol_value(c: char) -> (r: Option<u8>)
    ensures
        r == b32_value(c),
{
    if 'A' <= c && c <= 'Z' {
        Some(((c as u32) - ('A' as u32)) as u8)
    } else if '2' <= c && c <= '7' {
        Some(((c as u32) - ('2' as u32) + 26) as u8)
    } else {
        None
    }
}

/// Decodes a Base32 secret that is already upper case: spaces and hyphens
/// are ignored, trailing `=` padding is trimmed, any other character outside
/// `A-Z2-7` makes the secret invalid, and a final group of fewer than eight
/// bits is dropped.
pub fn base32_decode_upper(input: &str) -> (r: Option<Vec<u8>>)
    ensures
        match r {
            Some(bytes) => b32_decode_upper(input@) == Some(bytes@),
            None => b32_decode_upper(input@) is None,
        },
{
    let all = chars_of(input);
    let cs = strip_separators(&all);
    let n = strip_padding(&cs);
    let ghost sym = cs@.subrange(0, n as int);
    proof {
        assert(b32_symbols(input@) == sym);
    }
    let mut bits: Vec<u8> = Vec::new();
    let mut i: usize = 0;
    while i < n
        invariant
            n <= cs@.len(),
            sym == cs@.subrange(0, n as int),
            sym == b32_symbols(input@),
            i <= n,
            bits@.len() == 5 * i,
            forall|j: int| 0 <= j < i ==> (#[trigger] b32_value(sym[j])) is Some,
            forall|j: int| 0 <= j < 5 * i ==> bits@[j] as int == #[trigger] b32_bit(sym, j),
            forall|j: int| 0 <= j < 5 * i ==> #[trigger] bits@[j] <= 1,
        decreases n - i,
    {
        match b32_symbol_value(cs[i]) {
            Some(v) => {
                let ghost before = bits@;
                bits.push(v / 16 % 2);
                bits.push(v / 8 % 2);
                bits.push(v / 4 % 2);
                bits.push(v / 2 % 2);
                bits.push(v % 2);
                proof {
                    assert forall|j: int| 0 <= j < 5 * (i + 1) implies bits@[j] as int == #[trigger] b32_bit(sym, j) by {
                        if j >= 5 * i {
                            assert(j / 5 == i as int);
                            assert(b32_value(sym[j / 5]) == Some(v));
                        } else {
                            assert(bits@[j] == before[j]);
                        }
                    }
                }
            },
            None => {
                proof {
                    assert(b32_value(sym[i as int]) is None);
                    assert(!all_b32(sym));
                    reveal(b32_decode_upper);
                }
                return None;
            },
        }
        i = i + 1;
    }
    let nbytes = bits.len() / 8;
    let mut bytes: Vec<u8> = Vec::new();
    let mut k: usize = 0;
    while k < nbytes
        invariant
            sym == b32_symbols(input@),
            bits@.len() == 5 * sym.len(),
            nbytes == bits@.len() / 8,
            forall|j: int| 0 <= j < bits@.len() ==> bits@[j] as int == #[trigger] b32_bit(sym, j),
            forall|j: int| 0 <= j < bits@.len() ==> #[trigger] bits@[j] <= 1,
            k <= nbytes,
            bytes@.len() == k,
            forall|j: int| 0 <= j < k ==> bytes@[j] == #[trigger] b32_byte(sym, j),
        decreases nbytes - k,
    {
        assert(8 * k + 8 <= bits@.len());
        assert(bits@.len() == bits.len());
        let b = 8 * k;
        let byte: u32 = (bits[b] as u32) * 128 + (bits[b + 1] as u32) * 64 + (bits[b + 2] as u32) * 32
            + (bits[b + 3] as u32) * 16 + (bits[b + 4] as u32) * 8 + (bits[b + 5] as u32) * 4
            + (bits[b + 6] as u32) * 2 + (bits[b + 7] as u32);
        proof {
            assert(bits@[b as int] as int == b32_bit(sym, 8 * k));
            assert(bits@[b + 1] as int == b32_bit(sym, 8 * k + 1));
            assert(bits@[b + 2] as int == b32_bit(sym, 8 * k + 2));
            assert(bits@[b + 3] as int == b32_bit(sym, 8 * k + 3));
            assert(bits@[b + 4] as int == b32_bit(sym, 8 * k + 4));
            assert(bits@[b + 5] as int == b32_bit(sym, 8 * k + 5));
            assert(bits@[b + 6] as int == b32_bit(sym, 8 * k + 6));
            assert(bits@[b + 7] as int == b32_bit(sym, 8 * k + 7));
        }
        bytes.push(byte as u8);
        k = k + 1;
    }
    proof {
        reveal(b32_decode_upper);
        assert(all_b32(sym));
        assert(nbytes == sym.len() * 5 / 8);
        assert(bytes@ == b32_bytes(sym));
    }
    Some(bytes)
}

/// Decodes a Base32 (RFC 4648) secret: upper-cases it, then decodes it as
/// [`base32_decode_upper`] does.
pub fn base32_decode(input: &str) -> (r: Option<Vec<u8>>)
    ensures
        match r {
            Some(bytes) => b32_decode_upper(str_upper(input@)) == Some(bytes@),
            None => b32_decode_upper(str_upper(input@)) is None,
        },
{
    let upper = to_upper(input);
    base32_decode_upper(upper.as_str())
}

} // verus!

verus! {

/// The eight bytes of a counter, most significant first.
pub open spec fn be_bytes(x: u64) -> Seq<u8> {
    seq![
        ((x >> 56u64) & 0xffu64) as u8,
        ((x >> 48u64) & 0xffu64) as u8,
        ((x >> 40u64) & 0xffu64) as u8,
        ((x >> 32u64) & 0xffu64) as u8,
        ((x >> 24u64) & 0xffu64) as u8,
        ((x >> 16u64) & 0xffu64) as u8,
        ((x >> 8u64) & 0xffu64) as u8,
        (x & 0xffu64) as u8,
    ]
}

/// RFC 4226 dynamic truncation of a 20-byte HMAC-SHA1 tag: the low four bits
/// of the last byte pick an offset, and the 31-bit big-endian number at that
/// offset is taken.
pub open spec fn dynamic_truncation(tag: Seq<u8>) -> int {
    let off = (tag[19] % 16) as int;
    (tag[off] % 128) as int * 16777216 + tag[off + 1] as int * 65536 + tag[off + 2] as int * 256
        + tag[off + 3] as int
}

/// The decimal digit character for a value in 0..10.
pub open spec fn digit_char(d: int) -> char {
    ((d + 48) as u8) as char
}

/// A number below one million as exactly six decimal digits, zero-padded.
pub open spec fn six_digits(n: int) -> Seq<char> {
    seq![
        digit_char((n / 100000) % 10),
        digit_char((n / 10000) % 10),
        digit_char((n / 1000) % 10),
        digit_char((n / 100) % 10),
        digit_char((n / 10) % 10),
        digit_char(n % 10),
    ]
}

/// The six-digit code that a 20-byte HMAC-SHA1 tag gives.
#[verifier::opaque]
pub open spec fn code_of_tag(tag: Seq<u8>) -> Seq<char> {
    six_digits(dynamic_truncation(tag) % 1_000_000)
}

/// The TOTP code of a secret at a Unix time: HMAC-SHA1 of the 30-second
/// step counter, truncated to six digits.
pub open spec fn totp_code(secret: Seq<u8>, unix_secs: u64) -> Seq<char> {
    code_of_tag(hmac_sha1(secret, be_bytes(unix_secs / TOTP_PERIOD)))
}

/// A code and a remaining time that a secret gives at some Unix time.
pub open spec fn is_totp_at_some_time(secret: Seq<u8>, code: Seq<char>, remaining: u64) -> bool {
    exists|t: u64| code == #[trigger] totp_code(secret, t) && remaining == seconds_remaining(t)
}

/// Seconds until the code of a Unix time changes.
pub open spec fn seconds_remaining(unix_secs: u64) -> u64 {
    (TOTP_PERIOD - unix_secs % TOTP_PERIOD) as u64
}

/// The counter of a time step as eight big-endian bytes.
pub fn counter_bytes(x: u64) -> (r: Vec<u8>)
    ensures
        r@ == be_bytes(x),
{
    let mut r: Vec<u8> = Vec::new();
    r.push(((x >> 56u64) & 0xffu64) as u8);
    r.push(((x >> 48u64) & 0xffu64) as u8);
    r.push(((x >> 40u64) & 0xffu64) as u8);
    r.push(((x >> 32u64) & 0xffu64) as u8);
    r.push(((x >> 24u64) & 0xffu64) as u8);
    r.push(((x >> 16u64) & 0xffu64) as u8);
    r.push(((x >> 8u64) & 0xffu64) as u8);
    r.push((x & 0xffu64) as u8);
    r
}

fn digit(d: u32) -> (c: char)
    requires
        d < 10,
    ensures
        c == digit_char(d as int),
{
    ((d + 48) as u8) as char
}

/// The six-digit code of an HMAC-SHA1 tag (dynamic truncation, modulo one
/// million, zero-padded).
pub fn code_from_tag(tag: &[u8]) -> (code: String)
    requires
        tag@.len() == HMAC_SHA1_LEN,
    ensures
        code@ == code_of_tag(tag@),
        code@.len() == 6,
{
    let off = (tag[19] % 16) as usize;
    let n: u32 = ((tag[off] % 128) as u32) * 16777216 + (tag[off + 1] as u32) * 65536
        + (tag[off + 2] as u32) * 256 + (tag[off + 3] as u32);
    let n = n % 1_000_000;
    let mut cs: Vec<char> = Vec::new();
    cs.push(digit((n / 100000) % 10));
    cs.push(digit((n / 10000) % 10));
    cs.push(digit((n / 1000) % 10));
    cs.push(digit((n / 100) % 10));
    cs.push(digit((n / 10) % 10));
    cs.push(digit(n % 10));
    let code = string_from_chars(cs.as_slice());
    proof {
        reveal(code_of_tag);
        assert(cs@ == code_of_tag(tag@));
    }
    code
}

/// The TOTP code of a secret at a Unix time, with the seconds until the
/// next code (1 to 30).
pub fn totp_at(secret: &[u8], unix_secs: u64) -> (r: (String, u64))
    ensures
        r.0@ == totp_code(secret@, unix_secs),
        r.0@.len() == 6,
        r.1 == seconds_remaining(unix_secs),
        1 <= r.1 <= TOTP_PERIOD,
{
    let counter = counter_bytes(unix_secs / TOTP_PERIOD);
    let tag = hmac_sha1_tag(secret, counter.as_slice());
    let code = code_from_tag(tag.as_slice());
    (code, TOTP_PERIOD - unix_secs % TOTP_PERIOD)
}

/// Reads the system clock: seconds since the Unix epoch, or `None` when the
/// clock is set before it (`SystemTime::now().duration_since(UNIX_EPOCH)`).
/// Nothing is claimed of the value: it is the time.
#[verifier::external_body]
fn unix_time_secs() -> Option<u64> {
    std::time::SystemTime::now().duration_since(std::time::UNIX_EPOCH).ok().map(|d| d.as_secs())
}

/// The current TOTP code of a Base32 secret and the seconds it stays valid.
/// `None` when the secret is not valid Base32, decodes to no bytes, or the
/// system clock is set before the Unix epoch.
pub fn generate_totp(secret_base32: &str) -> (r: Option<(String, u64)>)
    ensures
        match b32_decode_upper(str_upper(secret_base32@)) {
            Some(key) => match r {
                Some(out) => key.len() > 0 && is_totp_at_some_time(key, out.0@, out.1),
                None => true,
            },
            None => r is None,
        },
        b32_decode_upper(str_upper(secret_base32@)) == Some(Seq::<u8>::empty()) ==> r is None,
        r matches Some(out) ==> 1 <= out.1 <= TOTP_PERIOD && out.0@.len() == 6,
{
    let secret = match base32_decode(secret_base32) {
        Some(s) => s,
        None => return None,
    };
    if secret.len() == 0 {
        return None;
    }
    let now = match unix_time_secs() {
        Some(t) => t,
        None => return None,
    };
    let out = totp_at(secret.as_slice(), now);
    proof {
        let t = now;
        assert(out.0@ == totp_code(secret@, t) && out.1 == seconds_remaining(t));
    }
    Some(out)
}

/// The numeric value of six decimal digit characters.
pub open spec fn six_digit_value(c: Seq<char>) -> int {
    (c[0] as int - 48) * 100000 + (c[1] as int - 48) * 10000 + (c[2] as int - 48) * 1000 + (c[3] as int - 48) * 100
        + (c[4] as int - 48) * 10 + (c[5] as int - 48)
}

proof fn lemma_digit_char(d: int)
    requires
        0 <= d < 10,
    ensures
        digit_char(d) as int == d + 48,
        '0' <= digit_char(d) <= '9',
{
    let b: u8 = (d + 48) as u8;
    assert(b as int == d + 48);
    assert((b as char) as int == b as int);
}

/// RFC 4226 dynamic truncation: the code is six decimal digits whose value
/// is the 31-bit word read big-endian at the offset given by the low four
/// bits of the tag's last byte (the high bit of its first byte cleared),
/// modulo one million.
pub proof fn law_code_is_rfc4226_truncation(tag: Seq<u8>)
    requires
        tag.len() == HMAC_SHA1_LEN,
    ensures
        ({
            let off = (tag[19] % 16) as int;
            let word = (tag[off] % 128) as int * 0x100_0000 + tag[off + 1] as int * 0x1_0000 + tag[off + 2] as int
                * 0x100 + tag[off + 3] as int;
            &&& code_of_tag(tag).len() == 6
            &&& forall|i: int| 0 <= i < 6 ==> '0' <= #[trigger] code_of_tag(tag)[i] <= '9'
            &&& six_digit_value(code_of_tag(tag)) == word % 1_000_000
            &&& word < 0x8000_0000
        }),
{
    reveal(code_of_tag);
    let n = dynamic_truncation(tag) % 1_000_000;
    assert(0 <= n < 1_000_000);
    let d0 = (n / 100000) % 10;
    let d1 = (n / 10000) % 10;
    let d2 = (n / 1000) % 10;
    let d3 = (n / 100) % 10;
    let d4 = (n / 10) % 10;
    let d5 = n % 10;
    lemma_digit_char(d0);
    lemma_digit_char(d1);
    lemma_digit_char(d2);
    lemma_digit_char(d3);
    lemma_digit_char(d4);
    lemma_digit_char(d5);
    assert(d0 * 100000 + d1 * 10000 + d2 * 1000 + d3 * 100 + d4 * 10 + d5 == n) by (nonlinear_arith)
        requires
            0 <= n < 1_000_000,
            d0 == (n / 100000) % 10,
            d1 == (n / 10000) % 10,
            d2 == (n / 1000) % 10,
            d3 == (n / 100) % 10,
            d4 == (n / 10) % 10,
            d5 == n % 10,
    ;
    let c = code_of_tag(tag);
    assert(c == six_digits(n));
    assert(forall|i: int| 0 <= i < 6 ==> '0' <= #[trigger] c[i] <= '9');
}

} // verus!
