//! The rules that decide which strings may become an account.

use vstd::prelude::*;
use vstd::utf8::{is_ascii_chars, is_ascii_chars_encode_utf8};

use crate::error::Reason;

verus! {

/// The first rule, in the fixed order of the six, that the pair breaks.
pub open spec fn violation(user: Seq<char>, pass: Seq<char>) -> Option<Reason> {
    if !is_ascii_chars(user) {
        Some(Reason::UserNotAscii)
    } else if user.len() <= 3 {
        Some(Reason::UserTooShort)
    } else if user.len() >= 15 {
        Some(Reason::UserTooLong)
    } else if !is_ascii_chars(pass) {
        Some(Reason::PassNotAscii)
    } else if pass.len() <= 7 {
        Some(Reason::PassTooShort)
    } else if pass.len() >= 25 {
        Some(Reason::PassTooLong)
    } else {
        None
    }
}

/// A pair is well formed when it breaks none of the rules.
pub open spec fn well_formed(user: Seq<char>, pass: Seq<char>) -> bool {
    &&& is_ascii_chars(user)
    &&& 4 <= user.len() <= 14
    &&& is_ascii_chars(pass)
    &&& 8 <= pass.len() <= 24
}

/// Nothing is reported exactly for the well-formed pairs.
pub proof fn law_violation_none(user: Seq<char>, pass: Seq<char>)
    ensures
        violation(user, pass) is None <==> well_formed(user, pass),
{
}

/// The lengths at the edges: an ASCII username of 4 or of 14 characters is
/// accepted with an ASCII password of 8 or of 24; one character less is too
/// short and one more is too long, and the username is judged first.
pub proof fn law_length_edges(user: Seq<char>, pass: Seq<char>)
    requires
        is_ascii_chars(user),
        is_ascii_chars(pass),
    ensures
        user.len() == 3 ==> violation(user, pass) == Some(Reason::UserTooShort),
        user.len() == 15 ==> violation(user, pass) == Some(Reason::UserTooLong),
        (user.len() == 4 || user.len() == 14) && (pass.len() == 8 || pass.len() == 24)
            ==> violation(user, pass) is None,
        4 <= user.len() <= 14 && pass.len() == 7 ==> violation(user, pass) == Some(
            Reason::PassTooShort,
        ),
        4 <= user.len() <= 14 && pass.len() == 25 ==> violation(user, pass) == Some(
            Reason::PassTooLong,
        ),
{
}

/// A broken rule for the username is reported whatever the password is.
pub proof fn law_username_first(user: Seq<char>, pass: Seq<char>, other: Seq<char>)
    requires
        !is_ascii_chars(user) || user.len() <= 3 || user.len() >= 15,
    ensures
        violation(user, pass) == violation(user, other),
        violation(user, pass) is Some,
        violation(user, pass) != Some(Reason::PassNotAscii),
        violation(user, pass) != Some(Reason::PassTooShort),
        violation(user, pass) != Some(Reason::PassTooLong),
{
}

/// Checks a proposed pair against the six rules, in their order, and reports
/// the first one broken.
pub fn validate(user: &str, pass: &str) -> (r: Result<(), Reason>)
    ensures
        r == match violation(user@, pass@) {
            Some(reason) => Err::<(), Reason>(reason),
            None => Ok::<(), Reason>(()),
        },
{
    if !user.is_ascii() {
        return Err(Reason::UserNotAscii);
    }
    proof {
        is_ascii_chars_encode_utf8(user@);
    }
    let user_len: usize = user.as_bytes().len();
    if user_len <= 3 {
        return Err(Reason::UserTooShort);
    }
    if user_len >= 15 {
        return Err(Reason::UserTooLong);
    }
    if !pass.is_ascii() {
        return Err(Reason::PassNotAscii);
    }
    proof {
        is_ascii_chars_encode_utf8(pass@);
    }
    let pass_len: usize = pass.as_bytes().len();
    if pass_len <= 7 {
        return Err(Reason::PassTooShort);
    }
    if pass_len >= 25 {
        return Err(Reason::PassTooLong);
    }
    Ok(())
}

} // verus!
