//! A typed command/response adapter for the line-oriented text protocol that
//! administers onion (hidden) services on a relay process.
//!
//! The library serializes a structured service-creation command into the exact
//! wire line the control protocol expects, and parses the multi-line textual
//! response into a structured result or a precise, typed error. Transport
//! (sending the line, collecting the response lines) is the caller's concern.

pub mod add_onion;
pub mod command;
pub mod error;
pub mod grammar;
pub mod response;
pub mod text;
pub mod types;

pub use add_onion::AddOnion;
pub use add_onion::AddOnionFlag;
pub use add_onion::AddOnionResponse;
pub use command::TorCommand;
pub use error::TorClientError;
pub use response::ResponseLine;
pub use types::KeyBlob;
pub use types::KeyType;
pub use types::PrivateKey;
pub use types::TargetAddr;
