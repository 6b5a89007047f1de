//! The password generator.
use vstd::prelude::*;
use rand::Rng;
use crate::app::App;
use crate::text::{append_chars, chars_of, string_from_chars};

verus! {

/// The characters a generated password is drawn from: lower-case letters,
/// upper-case letters, digits and symbols as chosen, in that order; the
/// lower-case letters alone when nothing is chosen.
pub open spec fn charset(lower: bool, upper: bool, digits: bool, symbols: bool) -> Seq<char> {
    let cs = (if lower { "abcdefghijklmnopqrstuvwxyz"@ } else { Seq::empty() }) + (if upper {
        "ABCDEFGHIJKLMNOPQRSTUVWXYZ"@
    } else {
        Seq::empty()
    }) + (if digits { "0123456789"@ } else { Seq::empty() }) + (if symbols {
        "!@#$%^&*()-_=+[]{}|;:,.<>?"@
    } else {
        Seq::empty()
    });
    if cs.len() == 0 {
        "abcdefghijklmnopqrstuvwxyz"@
    } else {
        cs
    }
}

/// A number drawn uniformly below `n` with `rand::thread_rng().gen_range(0..n)`
/// (which panics on an empty range; `requires` leaves it out). Claimed: the
/// number is below `n`; it is random.
#[verifier::external_body]
fn random_below(n: usize) -> (r: usize)
    requires
        n > 0,
    ensures
        r < n,
{
    rand::thread_rng().gen_range(0..n)
}

fn add_chars(cs: &mut Vec<char>, lit: &str)
    ensures
        final(cs)@ == old(cs)@ + lit@,
{
    let more = chars_of(lit);
    let joined = append_chars(cs, &more);
    *cs = joined;
}

impl App {
    /// A random password of `gen_length` characters, each drawn from the
    /// chosen character classes (see [`charset`]).
    pub fn generate_password(&self) -> (r: String)
        ensures
            r@.len() == self.gen_length,
            forall|i: int| 0 <= i < r@.len() ==> charset(self.gen_lowercase, self.gen_uppercase, self.gen_digits, self.gen_symbols).contains(#[trigger] r@[i]),
    {
        let ghost set = charset(self.gen_lowercase, self.gen_uppercase, self.gen_digits, self.gen_symbols);
        let mut cs: Vec<char> = Vec::new();
        if self.gen_lowercase {
            add_chars(&mut cs, "abcdefghijklmnopqrstuvwxyz");
        }
        if self.gen_uppercase {
            add_chars(&mut cs, "ABCDEFGHIJKLMNOPQRSTUVWXYZ");
        }
        if self.gen_digits {
            add_chars(&mut cs, "0123456789");
        }
        if self.gen_symbols {
            add_chars(&mut cs, "!@#$%^&*()-_=+[]{}|;:,.<>?");
        }
        if cs.len() == 0 {
            add_chars(&mut cs, "abcdefghijklmnopqrstuvwxyz");
            proof {
                reveal_strlit("abcdefghijklmnopqrstuvwxyz");
            }
        }
        proof {
            assert(cs@ =~= set);
        }
        let mut out: Vec<char> = Vec::new();
        let mut i: usize = 0;
        while i < self.gen_length
            invariant
                cs@ == set,
                cs@.len() > 0,
                i <= self.gen_length,
                out@.len() == i,
                forall|k: int| 0 <= k < out@.len() ==> set.contains(#[trigger] out@[k]),
            decreases self.gen_length - i,
        {
            let k = random_below(cs.len());
            proof {
                assert(set[k as int] == cs@[k as int]);
            }
            out.push(cs[k]);
            i = i + 1;
        }
        string_from_chars(out.as_slice())
    }
}

} // verus!
