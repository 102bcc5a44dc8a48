//! The data the service-creation command carries: key material categories,
//! key blobs, returned private keys, and forwarding socket addresses.

use vstd::prelude::*;
use vstd::string::StringExecFns;
use crate::text::decimal_digits;
use crate::text::push_decimal;

verus! {

/// The category of key material the far end is asked to use.
#[derive(Clone, Copy, Debug, PartialEq, Eq, Structural)]
pub enum KeyType {
    /// Ask the far end to generate a new key.
    New,
    /// Supply an RSA-1024 key.
    Rsa1024,
    /// Supply an Ed25519 (version 3) key.
    Ed25519V3,
}

/// The exact wire token of a key-material category.
pub open spec fn key_type_token(k: KeyType) -> Seq<char> {
    match k {
        KeyType::New => "NEW"@,
        KeyType::Rsa1024 => "RSA1024"@,
        KeyType::Ed25519V3 => "ED25519-V3"@,
    }
}

impl KeyType {
    /// The exact wire token of this key-material category.
    pub fn as_tor_repr(&self) -> (r: &'static str)
        ensures
            r@ == key_type_token(*self),
    {
        match self {
            KeyType::New => "NEW",
            KeyType::Rsa1024 => "RSA1024",
            KeyType::Ed25519V3 => "ED25519-V3",
        }
    }
}

/// The mathematical value of a key blob.
pub enum KeyBlobV {
    /// The sentinel asking the far end to generate key material with its
    /// preferred algorithm.
    Best,
    /// Literal encoded key material supplied by the caller.
    Literal(Seq<char>),
}

/// The textual encoding of key material embedded in a request: either a
/// literal encoded key or the sentinel requesting generation.
#[derive(Clone, Debug, PartialEq, Eq)]
pub enum KeyBlob {
    /// Ask the far end to generate key material with its preferred algorithm.
    Best,
    /// Literal encoded key material supplied by the caller.
    Literal(String),
}

impl View for KeyBlob {
    type V = KeyBlobV;

    open spec fn view(&self) -> KeyBlobV {
        match self {
            KeyBlob::Best => KeyBlobV::Best,
            KeyBlob::Literal(s) => KeyBlobV::Literal(s@),
        }
    }
}

/// The exact characters a key blob contributes to the wire line.
pub open spec fn key_blob_chars(b: KeyBlobV) -> Seq<char> {
    match b {
        KeyBlobV::Best => "BEST"@,
        KeyBlobV::Literal(s) => s,
    }
}

impl KeyBlob {
    /// The exact wire form of this key blob.
    pub fn as_tor_repr(&self) -> (r: &str)
        ensures
            r@ == key_blob_chars(self@),
    {
        match self {
            KeyBlob::Best => "BEST",
            KeyBlob::Literal(s) => s.as_str(),
        }
    }
}

/// The mathematical value of a returned private key.
pub enum PrivateKeyV {
    /// An Ed25519 (version 3) key payload.
    Ed25519V3(Seq<char>),
    /// An RSA-1024 key payload.
    Rsa1024(Seq<char>),
}

/// A private key the far end returned: an algorithm tag from a closed set and
/// the opaque key payload.
#[derive(Clone, Debug, PartialEq, Eq)]
pub enum PrivateKey {
    /// An Ed25519 (version 3) key payload.
    Ed25519V3(String),
    /// An RSA-1024 key payload.
    Rsa1024(String),
}

impl View for PrivateKey {
    type V = PrivateKeyV;

    open spec fn view(&self) -> PrivateKeyV {
        match self {
            PrivateKey::Ed25519V3(s) => PrivateKeyV::Ed25519V3(s@),
            PrivateKey::Rsa1024(s) => PrivateKeyV::Rsa1024(s@),
        }
    }
}

/// A concrete local socket address a service forwards to, as plain values:
/// the four octets of the address and the port.
#[derive(Clone, Copy, Debug, PartialEq, Eq, Structural)]
pub struct TargetAddr {
    /// The first octet of the address.
    pub o0: u8,
    /// The second octet of the address.
    pub o1: u8,
    /// The third octet of the address.
    pub o2: u8,
    /// The fourth octet of the address.
    pub o3: u8,
    /// The port.
    pub port: u16,
}

/// The exact `address:port` wire form of a forwarding address.
pub open spec fn target_addr_chars(a: TargetAddr) -> Seq<char> {
    decimal_digits(a.o0 as nat) + "."@ + decimal_digits(a.o1 as nat) + "."@ + decimal_digits(
        a.o2 as nat,
    ) + "."@ + decimal_digits(a.o3 as nat) + ":"@ + decimal_digits(a.port as nat)
}

impl TargetAddr {
    /// Appends the `address:port` wire form of this address to `s`.
    pub fn push_tor_repr(&self, s: &mut String)
        ensures
            final(s)@ == old(s)@ + target_addr_chars(*self),
    {
        let ghost pre = s@;
        push_decimal(s, self.o0 as u64);
        s.append(".");
        push_decimal(s, self.o1 as u64);
        s.append(".");
        push_decimal(s, self.o2 as u64);
        s.append(".");
        push_decimal(s, self.o3 as u64);
        s.append(":");
        push_decimal(s, self.port as u64);
        proof {
            assert(s@ =~= pre + target_addr_chars(*self));
        }
    }

    /// The `address:port` wire form of this address.
    pub fn to_repr_string(&self) -> (r: String)
        ensures
            r@ == target_addr_chars(*self),
    {
        let mut s = String::new();
        self.push_tor_repr(&mut s);
        proof {
            assert(s@ =~= target_addr_chars(*self));
        }
        s
    }
}

} // verus!
