//! The three operations of the protocol and their tags.

use vstd::prelude::*;

verus! {

/// One operation that a request asks of the store.
#[derive(Copy, Clone, Debug, PartialEq, Eq, Structural)]
#[allow(non_camel_case_types, clippy::upper_case_acronyms)]
pub enum Command {
    SET,
    GET,
    DEL,
}

/// What can go wrong while reading a request.
#[derive(Copy, Clone, Debug, PartialEq, Eq, Structural)]
pub enum ProtocolError {
    /// The command tag names none of the three operations.
    InvalidCommand,
    /// The stream ended before a declared number of bytes arrived.
    Truncated,
}

impl Command {
    /// The single byte that stands for the command on the wire.
    pub open spec fn tag(self) -> u8 {
        match self {
            Command::SET => 0,
            Command::GET => 1,
            Command::DEL => 2,
        }
    }

    /// The decimal digit that stands for the command at the client's prompt.
    pub open spec fn digit(self) -> char {
        match self {
            Command::SET => '0',
            Command::GET => '1',
            Command::DEL => '2',
        }
    }

    /// Reads a command tag; any byte outside 0, 1 and 2 is refused.
    pub fn from_byte(byte: u8) -> (r: Result<Command, ProtocolError>)
        ensures
            match r {
                Ok(c) => byte < 3 && c.tag() == byte,
                Err(e) => byte >= 3 && e == ProtocolError::InvalidCommand,
            },
    {
        match byte {
            0 => Ok(Command::SET),
            1 => Ok(Command::GET),
            2 => Ok(Command::DEL),
            _ => Err(ProtocolError::InvalidCommand),
        }
    }

    /// The wire tag of a command.
    pub fn to_byte(cmd: Command) -> (r: u8)
        ensures
            r == cmd.tag(),
    {
        match cmd {
            Command::SET => 0,
            Command::GET => 1,
            Command::DEL => 2,
        }
    }

    /// Reads a command as typed at the prompt: exactly one of the digits
    /// `0`, `1` or `2`.
    pub fn from_string(s: String) -> (r: Result<Command, ProtocolError>)
        ensures
            match r {
                Ok(c) => s@ == seq![c.digit()],
                Err(e) => e == ProtocolError::InvalidCommand && s@ != seq!['0']
                    && s@ != seq!['1'] && s@ != seq!['2'],
            },
    {
        let t = s.as_str();
        if t.unicode_len() != 1 {
            return Err(ProtocolError::InvalidCommand);
        }
        let ch = t.get_char(0);
        assert(t@ =~= seq![ch]);
        if ch == '0' {
            Ok(Command::SET)
        } else if ch == '1' {
            Ok(Command::GET)
        } else if ch == '2' {
            Ok(Command::DEL)
        } else {
            Err(ProtocolError::InvalidCommand)
        }
    }
}

} // verus!
