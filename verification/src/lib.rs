//! A minimal SMTP front end: a byte scanner, a command parser, and a
//! session state machine, each with a verified contract.

use vstd::prelude::*;

pub mod ascii;
pub mod parser;
pub mod scanner;
pub mod session;

pub use crate::parser::SmtpCommand;
pub use crate::parser::parse_line;

verus! {

/// Carriage return, the first byte of a line terminator.
pub const CR: u8 = 13;

/// Line feed, the second byte of a line terminator.
pub const LF: u8 = 10;

/// The space byte, the protocol's only token separator.
pub const SP: u8 = 32;

} // verus!
