//! The command line of the loopback-only conformance server: one explicit
//! `127.0.0.1:PORT` argument, or the same value from the environment when
//! no argument is given.

use crate::text::chars_of;
use vstd::prelude::*;

verus! {

/// Name of the environment variable read when no address is given.
pub const ADDRESS_ENV: &'static str = "FASTI_CONFORMANCE_ADDR";

/// Why the command line names no address to serve on.
#[derive(Clone, Copy, Debug, PartialEq, Eq, Structural)]
pub enum AddressError {
    Missing,
    TooManyArguments,
    Invalid,
    NotLoopbackV4,
}

impl AddressError {
    pub open spec fn message_text(self) -> Seq<char> {
        match self {
            AddressError::Missing => "supply explicit 127.0.0.1:PORT argument or FASTI_CONFORMANCE_ADDR"@,
            AddressError::TooManyArguments => "expected exactly one 127.0.0.1:PORT argument"@,
            AddressError::Invalid => "conformance address must be a valid 127.0.0.1:PORT socket address"@,
            AddressError::NotLoopbackV4 => "conformance server may bind only 127.0.0.1"@,
        }
    }

    /// The message the server prints for the error.
    pub fn message(&self) -> (m: &'static str)
        ensures
            m@ == self.message_text(),
    {
        match self {
            AddressError::Missing => "supply explicit 127.0.0.1:PORT argument or FASTI_CONFORMANCE_ADDR",
            AddressError::TooManyArguments => "expected exactly one 127.0.0.1:PORT argument",
            AddressError::Invalid => "conformance address must be a valid 127.0.0.1:PORT socket address",
            AddressError::NotLoopbackV4 => "conformance server may bind only 127.0.0.1",
        }
    }
}

/// What the command line asks for, before the address text is parsed.
pub enum RequestedInvocation {
    Help,
    Address(String),
}

pub open spec fn is_help_flag(s: Seq<char>) -> bool {
    s == "-h"@ || s == "--help"@
}

/// What `arguments` and the environment value ask for: help, or the text
/// of the address to serve on.
pub open spec fn requested_outcome(arguments: Seq<Seq<char>>, environment: Option<Seq<char>>) -> Result<
    Option<Seq<char>>,
    AddressError,
> {
    if arguments.len() == 0 {
        match environment {
            Some(e) => Ok(Some(e)),
            None => Err(AddressError::Missing),
        }
    } else if arguments.len() == 1 {
        if is_help_flag(arguments[0]) {
            Ok(None)
        } else {
            Ok(Some(arguments[0]))
        }
    } else {
        Err(AddressError::TooManyArguments)
    }
}

pub open spec fn strings_view(v: Seq<String>) -> Seq<Seq<char>> {
    Seq::new(v.len(), |i: int| v[i]@)
}

fn is_word(s: &str, word: &str) -> (r: bool)
    ensures
        r == (s@ == word@),
{
    let a = chars_of(s);
    let b = chars_of(word);
    crate::text::chars_eq(&a, &b)
}

/// Reads the command line: help, or the address text to parse.
pub fn requested_address(arguments: &Vec<String>, environment: Option<String>) -> (r: Result<
    RequestedInvocation,
    AddressError,
>)
    ensures
        match r {
            Ok(RequestedInvocation::Help) => requested_outcome(
                strings_view(arguments@),
                match environment {
                    Some(e) => Some(e@),
                    None => None,
                },
            ) == Ok::<Option<Seq<char>>, AddressError>(None),
            Ok(RequestedInvocation::Address(a)) => requested_outcome(
                strings_view(arguments@),
                match environment {
                    Some(e) => Some(e@),
                    None => None,
                },
            ) == Ok::<Option<Seq<char>>, AddressError>(Some(a@)),
            Err(e) => requested_outcome(
                strings_view(arguments@),
                match environment {
                    Some(e) => Some(e@),
                    None => None,
                },
            ) == Err::<Option<Seq<char>>, AddressError>(e),
        },
{
    if arguments.len() == 0 {
        match environment {
            Some(e) => Ok(RequestedInvocation::Address(e)),
            None => Err(AddressError::Missing),
        }
    } else if arguments.len() == 1 {
        let a = &arguments[0];
        assert(strings_view(arguments@)[0] == a@);
        if is_word(a.as_str(), "-h") || is_word(a.as_str(), "--help") {
            Ok(RequestedInvocation::Help)
        } else {
            Ok(RequestedInvocation::Address(a.clone()))
        }
    } else {
        Err(AddressError::TooManyArguments)
    }
}

/// A parsed socket address: its IPv4 octets, or none for IPv6, and its
/// port.
pub struct ParsedSocket {
    pub ipv4: Option<[u8; 4]>,
    pub port: u16,
}

/// The port to serve on: only a parsed `127.0.0.1` address gives one.
pub open spec fn loopback_outcome(parsed: Option<ParsedSocket>) -> Result<u16, AddressError> {
    match parsed {
        None => Err(AddressError::Invalid),
        Some(p) => match p.ipv4 {
            Some(octets) => if octets@ == seq![127u8, 0u8, 0u8, 1u8] {
                Ok(p.port)
            } else {
                Err(AddressError::NotLoopbackV4)
            },
            None => Err(AddressError::NotLoopbackV4),
        },
    }
}

/// Accepts a parsed address only when it is IPv4 loopback.
pub fn loopback_port(parsed: Option<ParsedSocket>) -> (r: Result<u16, AddressError>)
    ensures
        r == loopback_outcome(parsed),
{
    match parsed {
        None => Err(AddressError::Invalid),
        Some(p) => match p.ipv4 {
            Some(octets) => {
                if octets[0] == 127 && octets[1] == 0 && octets[2] == 0 && octets[3] == 1 {
                    assert(octets@ =~= seq![127u8, 0u8, 0u8, 1u8]);
                    Ok(p.port)
                } else {
                    proof {
                        if octets@ == seq![127u8, 0u8, 0u8, 1u8] {
                            assert(octets@[0] == 127u8);
                        }
                    }
                    Err(AddressError::NotLoopbackV4)
                }
            },
            None => Err(AddressError::NotLoopbackV4),
        },
    }
}

} // verus!
