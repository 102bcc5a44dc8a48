//! The typed errors a command exchange can surface.

use vstd::prelude::*;
use vstd::string::StringExecFns;

verus! {

/// The mathematical value of an error.
pub enum TorClientErrorV {
    /// No response lines arrived for a command that requires at least a
    /// status line.
    UnexpectedEof,
    /// The far end's status line carried this error message.
    TorCommandFailed(Seq<char>),
    /// A private-key value was malformed: no colon, an empty algorithm tag,
    /// or an empty payload.
    PrivateKeyMalformed,
    /// A private-key value named this algorithm tag, which is not in the
    /// recognized set.
    UnrecognizedKeyType(Seq<char>),
    /// A syntactically successful reply never carried the mandatory service
    /// identifier.
    AddOnionNoServiceId,
}

/// An error surfaced to the caller of a command exchange. Every failure mode
/// is a distinct variant; none is retried or recovered here.
#[derive(Clone, Debug, PartialEq, Eq)]
pub enum TorClientError {
    /// No response lines arrived for a command that requires at least a
    /// status line.
    UnexpectedEof,
    /// The far end rejected the command; carries its message verbatim.
    TorCommandFailed(String),
    /// A private-key value was malformed: no colon, an empty algorithm tag,
    /// or an empty payload.
    PrivateKeyMalformed,
    /// The far end returned a private key of this unrecognized algorithm tag.
    UnrecognizedKeyType(String),
    /// A syntactically successful reply never carried the mandatory service
    /// identifier.
    AddOnionNoServiceId,
}

impl View for TorClientError {
    type V = TorClientErrorV;

    open spec fn view(&self) -> TorClientErrorV {
        match self {
            TorClientError::UnexpectedEof => TorClientErrorV::UnexpectedEof,
            TorClientError::TorCommandFailed(m) => TorClientErrorV::TorCommandFailed(m@),
            TorClientError::PrivateKeyMalformed => TorClientErrorV::PrivateKeyMalformed,
            TorClientError::UnrecognizedKeyType(t) => TorClientErrorV::UnrecognizedKeyType(t@),
            TorClientError::AddOnionNoServiceId => TorClientErrorV::AddOnionNoServiceId,
        }
    }
}

impl TorClientError {
    /// A short description of the error, with any carried message or tag.
    pub fn describe(&self) -> (r: String)
        ensures
            match self {
                TorClientError::UnexpectedEof => r@ == "unexpected end of input"@,
                TorClientError::TorCommandFailed(m) => r@ == "command failed: "@ + m@,
                TorClientError::PrivateKeyMalformed => r@ == "failed to parse private key"@,
                TorClientError::UnrecognizedKeyType(t) => r@ == "unrecognized private key type: "@
                    + t@,
                TorClientError::AddOnionNoServiceId => r@ == "service id missing from response"@,
            },
    {
        match self {
            TorClientError::UnexpectedEof => "unexpected end of input".to_owned(),
            TorClientError::TorCommandFailed(m) => {
                let mut s = "command failed: ".to_owned();
                s.append(m.as_str());
                s
            },
            TorClientError::PrivateKeyMalformed => "failed to parse private key".to_owned(),
            TorClientError::UnrecognizedKeyType(t) => {
                let mut s = "unrecognized private key type: ".to_owned();
                s.append(t.as_str());
                s
            },
            TorClientError::AddOnionNoServiceId => "service id missing from response".to_owned(),
        }
    }
}

} // verus!
