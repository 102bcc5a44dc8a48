//! The generic contract every protocol verb implements.

use vstd::prelude::*;
use crate::response::ResponseLine;

verus! {

/// A protocol verb: it produces the exact wire-format request line to send
/// (without the line terminator), and consumes the complete response lines of
/// one invocation into a typed output or a typed error. Each verb states its
/// exact behavior on its own inherent methods; this trait is the uniform
/// extension point the transport dispatches through.
pub trait TorCommand {
    /// The typed error of this verb.
    type Error;

    /// The typed output of this verb.
    type Output;

    /// The exact line to send, without the line terminator.
    fn to_command_string(&self) -> Result<String, Self::Error>;

    /// Consumes the complete response lines of one command invocation.
    fn parse_responses(&self, responses: Vec<ResponseLine>) -> Result<Self::Output, Self::Error>;
}

} // verus!
