//! The listen port, configured through the `PORT` environment variable.
use vstd::prelude::*;
use crate::decimal::{parse_bounded, parse_unsigned};

verus! {

/// Why the configured port cannot be used.
#[derive(Clone, Copy, Debug, PartialEq, Eq, Structural)]
pub enum PortError {
    /// `PORT` was set to a value that is not unicode.
    NotUnicode,
    /// `PORT` was set to a value that is not a port number.
    ParseError,
}

/// What the environment holds for `PORT`.
#[derive(Clone, Debug)]
pub enum PortVar {
    /// `PORT` is not set.
    NotPresent,
    /// `PORT` is set, but not to unicode text.
    NotUnicode,
    /// `PORT` is set to this text.
    Present(String),
}

/// A listen address made of a port number alone, to be bound on every local
/// IPv4 and IPv6 address.
#[derive(Clone, Copy, Debug, PartialEq, Eq, Structural)]
pub struct PortAddr {
    /// The port number to bind on.
    pub port: u16,
}

impl PortAddr {
    /// The port number to bind on.
    pub fn port(&self) -> (r: u16)
        ensures
            r == self.port,
    {
        self.port
    }
}

/// The port that `PORT` selects: `default_port` when unset, the number it holds
/// when it holds one (as `u16`'s parser reads it), and an error otherwise.
pub fn port_from_env(var: PortVar, default_port: u16) -> (r: Result<PortAddr, PortError>)
    ensures
        match var {
            PortVar::NotPresent => r == Ok::<PortAddr, PortError>(PortAddr { port: default_port }),
            PortVar::NotUnicode => r == Err::<PortAddr, PortError>(PortError::NotUnicode),
            PortVar::Present(s) => match parse_unsigned(s@, u16::MAX as nat) {
                Some(v) => r == Ok::<PortAddr, PortError>(PortAddr { port: v as u16 }),
                None => r == Err::<PortAddr, PortError>(PortError::ParseError),
            },
        },
{
    match var {
        PortVar::NotPresent => Ok(PortAddr { port: default_port }),
        PortVar::NotUnicode => Err(PortError::NotUnicode),
        PortVar::Present(s) => match parse_bounded(s.as_str(), 65535) {
            Some(v) => Ok(PortAddr { port: v as u16 }),
            None => Err(PortError::ParseError),
        },
    }
}

} // verus!
