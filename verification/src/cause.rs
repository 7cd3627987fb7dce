//! Why a match ended, and its fixed wire strings.
//!
//! External tooling depends on the literal strings, not on variant order, so
//! the mapping is written out in both directions and proved exact.

use vstd::prelude::*;
use vstd::string::StringExecFns;
use crate::json::str_eq;
use crate::types::InvalidCause;

verus! {

broadcast use vstd::string::group_string_axioms;

/// Why an active match terminated.
#[derive(Clone, Copy, Debug, PartialEq, Eq, Structural)]
pub enum EndedCause {
    Timeout,
    Gg,
    LostStones,
}

/// The wire string of a cause.
pub open spec fn cause_str(c: EndedCause) -> Seq<char> {
    match c {
        EndedCause::Timeout => "timeout"@,
        EndedCause::Gg => "gg"@,
        EndedCause::LostStones => "lost all stones"@,
    }
}

/// The cause a wire string names, if it names one.
pub open spec fn cause_of_str(s: Seq<char>) -> Option<EndedCause> {
    if s == "timeout"@ {
        Some(EndedCause::Timeout)
    } else if s == "gg"@ {
        Some(EndedCause::Gg)
    } else if s == "lost all stones"@ {
        Some(EndedCause::LostStones)
    } else {
        None
    }
}

impl EndedCause {
    /// The exact wire string of this cause.
    pub fn encode(&self) -> (r: String)
        ensures
            r@ == cause_str(*self),
    {
        match self {
            EndedCause::Timeout => String::from_str("timeout"),
            EndedCause::Gg => String::from_str("gg"),
            EndedCause::LostStones => String::from_str("lost all stones"),
        }
    }

    /// The cause a wire string names; any string outside the fixed set is an
    /// `InvalidCause` error, never a default.
    pub fn decode(s: &str) -> (r: Result<EndedCause, InvalidCause>)
        ensures
            match r {
                Ok(c) => cause_of_str(s@) == Some(c),
                Err(_) => cause_of_str(s@) is None,
            },
    {
        if str_eq(s, "timeout") {
            Ok(EndedCause::Timeout)
        } else if str_eq(s, "gg") {
            Ok(EndedCause::Gg)
        } else if str_eq(s, "lost all stones") {
            Ok(EndedCause::LostStones)
        } else {
            Err(InvalidCause)
        }
    }
}

/// Law: every cause encodes to one of exactly three strings, and decoding
/// reverses encoding.
pub proof fn lemma_cause_round_trip(c: EndedCause)
    ensures
        cause_str(c) == "timeout"@ || cause_str(c) == "gg"@ || cause_str(c) == "lost all stones"@,
        cause_of_str(cause_str(c)) == Some(c),
{
    reveal_strlit("timeout");
    reveal_strlit("gg");
    reveal_strlit("lost all stones");
    assert("timeout"@.len() == 7);
    assert("gg"@.len() == 2);
    assert("lost all stones"@.len() == 15);
}

/// Law: a string decodes to a cause exactly when it is one of the three wire
/// strings; every other string is rejected.
pub proof fn lemma_cause_decode_exact(s: Seq<char>)
    ensures
        cause_of_str(s) is Some <==> (s == "timeout"@ || s == "gg"@ || s
            == "lost all stones"@),
{
}

} // verus!
