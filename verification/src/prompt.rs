//! The start-up password prompts: what each answer leads to. Reading the
//! password and opening the vault file are the caller's part.
use vstd::prelude::*;
use crate::text::{concat, decimal, decimal_string, owned};

verus! {

/// How an unlock attempt at start-up went.
#[derive(Clone, Copy, Debug, PartialEq, Eq, Structural)]
pub enum UnlockOutcome {
    /// Nothing was typed.
    Empty,
    /// The vault opened with the password.
    Opened,
    /// The vault did not open with the password.
    Refused,
}

/// What the start-up prompt does next.
#[derive(Clone, Debug)]
pub enum PromptStep {
    /// Take the password.
    Accept,
    /// Show the message and ask again.
    Retry(String),
    /// Show the message and end the program with a failure.
    GiveUp(String),
    /// Every attempt was used without an answer to judge; the program stops.
    OutOfAttempts,
}

/// How many times the start-up prompt asks for the master password.
pub const UNLOCK_PROMPTS: u8 = 3;

/// What follows attempt `attempt` (counting from 0) of the start-up
/// unlock: an opened vault is taken; an empty answer is refused and asked
/// again; a wrong password is asked again with the attempt count, and the
/// third ends the program. An empty third answer leaves no attempt.
pub open spec fn unlock_step(attempt: u8, outcome: UnlockOutcome, step: PromptStep) -> bool {
    match outcome {
        UnlockOutcome::Opened => step is Accept,
        UnlockOutcome::Empty => if attempt + 1 < UNLOCK_PROMPTS {
            step matches PromptStep::Retry(m) && m@ == "Password cannot be empty."@
        } else {
            step is OutOfAttempts
        },
        UnlockOutcome::Refused => if attempt + 1 < UNLOCK_PROMPTS {
            step matches PromptStep::Retry(m) && m@ == "Wrong password. Try again ("@ + decimal((attempt + 2) as nat)
                + "/3)."@
        } else {
            step matches PromptStep::GiveUp(m) && m@ == "Too many failed attempts."@
        },
    }
}

/// What follows an attempt of the start-up unlock (see [`unlock_step`]).
pub fn after_unlock_attempt(attempt: u8, outcome: UnlockOutcome) -> (step: PromptStep)
    requires
        attempt < UNLOCK_PROMPTS,
    ensures
        unlock_step(attempt, outcome, step),
{
    match outcome {
        UnlockOutcome::Opened => PromptStep::Accept,
        UnlockOutcome::Empty => if attempt + 1 < UNLOCK_PROMPTS {
            PromptStep::Retry(owned("Password cannot be empty."))
        } else {
            PromptStep::OutOfAttempts
        },
        UnlockOutcome::Refused => if attempt + 1 < UNLOCK_PROMPTS {
            let n = decimal_string((attempt + 2) as u64);
            let head = concat("Wrong password. Try again (", n.as_str());
            PromptStep::Retry(concat(head.as_str(), "/3)."))
        } else {
            PromptStep::GiveUp(owned("Too many failed attempts."))
        },
    }
}

/// The shortest master password accepted, in bytes.
pub const MIN_MASTER_PASSWORD_BYTES: usize = 8;

/// The complaint about a new master password: shorter than 8 bytes.
pub open spec fn new_password_complaint(byte_len: usize) -> Option<Seq<char>> {
    if byte_len < MIN_MASTER_PASSWORD_BYTES {
        Some("Password must be at least 8 characters."@)
    } else {
        None
    }
}

/// What is wrong with a new master password, if anything.
pub fn check_new_password(password: &str) -> (r: Option<String>)
    ensures
        match r {
            Some(m) => new_password_complaint(password.len() as usize) == Some(m@),
            None => new_password_complaint(password.len() as usize) is None,
        },
{
    if password.len() < MIN_MASTER_PASSWORD_BYTES {
        Some(owned("Password must be at least 8 characters."))
    } else {
        None
    }
}

/// What is wrong with the confirmation of a new master password, if anything.
pub fn check_confirmation(password: &str, confirm: &str) -> (r: Option<String>)
    ensures
        match r {
            Some(m) => password@ != confirm@ && m@ == "Passwords do not match. Try again."@,
            None => password@ == confirm@,
        },
{
    if crate::text::str_eq(password, confirm) {
        None
    } else {
        Some(owned("Passwords do not match. Try again."))
    }
}

} // verus!
