//! What can go wrong when a datagram is decoded.

use crate::decimal::{decimal, push_decimal};
use vstd::prelude::*;

verus! {

/// The one failure of the packet codec.
#[derive(Debug, Clone, Copy, PartialEq, Eq)]
pub enum Error {
    /// The datagram is too short to hold a header: the number of bytes
    /// expected, then the number of bytes at hand.
    UnexpectedSize(usize, usize),
}

impl Error {
    /// The full message: the description followed by both byte counts.
    pub open spec fn text(&self) -> Seq<char> {
        match self {
            Error::UnexpectedSize(expected, actual) => {
                "Unexpected number of bytes in NTP datagram (expected:"@ + decimal(*expected as nat)
                    + "; actual:"@ + decimal(*actual as nat) + ")"@
            },
        }
    }

    /// A short name for the kind of failure.
    pub fn description(&self) -> (s: &'static str)
        ensures
            s@ == "Unexpected number of bytes in NTP datagram"@,
    {
        match self {
            Error::UnexpectedSize(_, _) => "Unexpected number of bytes in NTP datagram",
        }
    }

    /// The message shown to a user.
    pub fn to_string(&self) -> (s: String)
        ensures
            s@ == self.text(),
    {
        match self {
            Error::UnexpectedSize(expected, actual) => {
                let mut s = String::from_str(
                    "Unexpected number of bytes in NTP datagram (expected:",
                );
                push_decimal(&mut s, *expected);
                s.append("; actual:");
                push_decimal(&mut s, *actual);
                s.append(")");
                s
            },
        }
    }
}

} // verus!
