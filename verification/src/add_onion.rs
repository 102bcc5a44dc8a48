//! The onion-service creation command: its behavioral flags, the exact wire
//! form of its request line, and the parsing of its response lines.

use vstd::prelude::*;
use vstd::string::StrSliceExecFns;
use vstd::string::StringExecFns;
use crate::error::TorClientError;
use crate::error::TorClientErrorV;
use crate::response::split_key_value;
use crate::response::status_error_spec;
use crate::response::ResponseLine;
use crate::text::find_char;
use crate::text::first_index;
use crate::text::join_with;
use crate::text::lemma_first_index;
use crate::text::push_decimal;
use crate::text::str_eq;
use crate::text::decimal_digits;
use crate::types::key_blob_chars;
use crate::types::key_type_token;
use crate::types::KeyBlob;
use crate::types::KeyBlobV;
use crate::types::KeyType;
use crate::types::PrivateKey;
use crate::types::PrivateKeyV;
use crate::types::TargetAddr;

verus! {

/// A behavioral modifier of the service-creation command. The set is closed;
/// each flag has exactly one canonical wire token.
#[derive(Clone, Copy, Debug, PartialEq, Eq, Structural)]
pub enum AddOnionFlag {
    /// The far end should not include the newly generated private key in its
    /// response.
    DiscardPK,
    /// Do not associate the new service with the current control connection.
    Detach,
    /// Client authorization is required, using the "basic" method.
    BasicAuth,
    /// Add a non-anonymous single onion service.
    NonAnonymous,
    /// Close the circuit when the maximum count of streams is reached.
    MaxStreamsCloseCircuit,
}

/// The canonical wire token of a flag.
pub open spec fn flag_token(f: AddOnionFlag) -> Seq<char> {
    match f {
        AddOnionFlag::DiscardPK => "DiscardPK"@,
        AddOnionFlag::Detach => "Detach"@,
        AddOnionFlag::BasicAuth => "BasicAuth"@,
        AddOnionFlag::NonAnonymous => "NonAnonymous"@,
        AddOnionFlag::MaxStreamsCloseCircuit => "MaxStreamsCloseCircuit"@,
    }
}

/// The wire tokens of the flags, in the given order.
pub open spec fn flag_tokens(flags: Seq<AddOnionFlag>) -> Seq<Seq<char>> {
    flags.map(|i: int, f: AddOnionFlag| flag_token(f))
}

/// The flags' tokens joined by commas, in the given (insertion) order.
pub open spec fn flags_wire(flags: Seq<AddOnionFlag>) -> Seq<char> {
    join_with(flag_tokens(flags), ',')
}

impl AddOnionFlag {
    /// The canonical wire token of this flag.
    pub fn to_string(&self) -> (r: String)
        ensures
            r@ == flag_token(*self),
    {
        match self {
            AddOnionFlag::DiscardPK => "DiscardPK".to_owned(),
            AddOnionFlag::Detach => "Detach".to_owned(),
            AddOnionFlag::BasicAuth => "BasicAuth".to_owned(),
            AddOnionFlag::NonAnonymous => "NonAnonymous".to_owned(),
            AddOnionFlag::MaxStreamsCloseCircuit => "MaxStreamsCloseCircuit".to_owned(),
        }
    }
}

/// The mathematical value of a service-creation command.
pub struct AddOnionV {
    /// The category of key material.
    pub key_type: KeyType,
    /// The key blob embedded in the request.
    pub key_blob: KeyBlobV,
    /// The behavioral flags, in insertion order.
    pub flags: Seq<AddOnionFlag>,
    /// The virtual port and the optional forwarding address.
    pub port: (u16, Option<TargetAddr>),
    /// The optional positive bound on concurrent streams.
    pub num_streams: Option<u16>,
}

/// The `Flags=` clause of the request line: empty when no flag is set.
pub open spec fn flags_clause(flags: Seq<AddOnionFlag>) -> Seq<char> {
    if flags.len() == 0 {
        Seq::empty()
    } else {
        " Flags="@ + flags_wire(flags)
    }
}

/// The `NumStreams=` clause of the request line: empty when no limit is set.
pub open spec fn num_streams_clause(ns: Option<u16>) -> Seq<char> {
    match ns {
        None => Seq::empty(),
        Some(n) => " NumStreams="@ + decimal_digits(n as nat),
    }
}

/// The mandatory `Port=` clause of the request line.
pub open spec fn port_clause(port: (u16, Option<TargetAddr>)) -> Seq<char> {
    " Port="@ + decimal_digits(port.0 as nat) + (match port.1 {
        None => Seq::<char>::empty(),
        Some(a) => ","@ + crate::types::target_addr_chars(a),
    })
}

/// The exact request line of a command: verb, key field, then the optional
/// and mandatory clauses in their fixed order.
pub open spec fn command_string_spec(c: AddOnionV) -> Seq<char> {
    "ADD_ONION "@ + key_type_token(c.key_type) + ":"@ + key_blob_chars(c.key_blob)
        + flags_clause(c.flags) + num_streams_clause(c.num_streams) + port_clause(c.port)
}

/// The service-creation command. Immutable once constructed; serialization is
/// a pure function of its fields.
pub struct AddOnion {
    key_type: KeyType,
    key_blob: KeyBlob,
    flags: Vec<AddOnionFlag>,
    port: (u16, Option<TargetAddr>),
    num_streams: Option<u16>,
}

impl View for AddOnion {
    type V = AddOnionV;

    closed spec fn view(&self) -> AddOnionV {
        AddOnionV {
            key_type: self.key_type,
            key_blob: self.key_blob@,
            flags: self.flags@,
            port: self.port,
            num_streams: self.num_streams,
        }
    }
}

impl AddOnion {
    /// Builds a command from its fields. A stream limit of zero is not
    /// representable: the bound, where present, is positive.
    pub fn new(
        key_type: KeyType,
        key_blob: KeyBlob,
        flags: Vec<AddOnionFlag>,
        port: (u16, Option<TargetAddr>),
        num_streams: Option<u16>,
    ) -> (r: AddOnion)
        requires
            num_streams matches Some(n) ==> n > 0,
        ensures
            r@ == (AddOnionV {
                key_type,
                key_blob: key_blob@,
                flags: flags@,
                port,
                num_streams,
            }),
    {
        AddOnion { key_type, key_blob, flags, port, num_streams }
    }

    /// The exact line to send, without the line terminator. Infallible for
    /// every constructible command; the signature stays fallible because the
    /// command abstraction admits verbs that may fail here.
    pub fn to_command_string(&self) -> (r: Result<String, TorClientError>)
        ensures
            r matches Ok(s) && s@ == command_string_spec(self@),
    {
        let mut s = String::new();
        s.append("ADD_ONION ");
        s.append(self.key_type.as_tor_repr());
        s.append(":");
        s.append(self.key_blob.as_tor_repr());
        let ghost base = "ADD_ONION "@ + key_type_token(self@.key_type) + ":"@ + key_blob_chars(
            self@.key_blob,
        );
        proof {
            assert(s@ =~= base);
        }
        if self.flags.len() > 0 {
            s.append(" Flags=");
            let ghost pre = s@;
            let mut i: usize = 0;
            while i < self.flags.len()
                invariant
                    i <= self.flags@.len(),
                    pre == base + " Flags="@,
                    i == 0 ==> s@ == pre,
                    i > 0 ==> s@ == pre + flags_wire(self.flags@.take(i as int)),
                decreases self.flags@.len() - i,
            {
                if i > 0 {
                    s.append(",");
                }
                let t = self.flags[i].to_string();
                s.append(t.as_str());
                proof {
                    let fl = self.flags@;
                    let tk = flag_tokens(fl.take(i as int + 1));
                    if i == 0 {
                        assert(tk =~= seq![flag_token(fl[0])]);
                        assert(flags_wire(fl.take(1)) == flag_token(fl[0]));
                        assert(s@ == pre + flags_wire(fl.take(1)));
                    } else {
                        assert(tk.drop_last() =~= flag_tokens(fl.take(i as int)));
                        assert(tk.last() == flag_token(fl[i as int]));
                        assert(flags_wire(fl.take(i as int + 1)) == flags_wire(
                            fl.take(i as int),
                        ) + seq![','] + flag_token(fl[i as int]));
                        assert(","@ =~= seq![',']) by {
                            reveal_strlit(",");
                        }
                        assert(s@ =~= pre + flags_wire(fl.take(i as int + 1)));
                    }
                }
                i += 1;
            }
            proof {
                assert(self.flags@.take(self.flags@.len() as int) =~= self.flags@);
                assert(s@ =~= base + flags_clause(self@.flags));
            }
        }
        let ghost with_flags = base + flags_clause(self@.flags);
        proof {
            if self.flags@.len() == 0 {
                assert(s@ =~= with_flags);
            }
        }
        if let Some(ns) = self.num_streams {
            s.append(" NumStreams=");
            push_decimal(&mut s, ns as u64);
        }
        let ghost with_ns = with_flags + num_streams_clause(self@.num_streams);
        proof {
            assert(s@ =~= with_ns);
        }
        s.append(" Port=");
        push_decimal(&mut s, self.port.0 as u64);
        if let Some(addr) = self.port.1 {
            s.append(",");
            addr.push_tor_repr(&mut s);
        }
        proof {
            assert(s@ =~= command_string_spec(self@));
        }
        Ok(s)
    }
}

impl crate::command::TorCommand for AddOnion {
    type Error = TorClientError;

    type Output = AddOnionResponse;

    fn to_command_string(&self) -> Result<String, TorClientError> {
        self.to_command_string()
    }

    fn parse_responses(&self, responses: Vec<ResponseLine>) -> Result<
        AddOnionResponse,
        TorClientError,
    > {
        self.parse_responses(responses)
    }
}

/// The mathematical value of a successful response.
pub struct AddOnionResponseV {
    /// The service identifier the far end assigned.
    pub service_id: Seq<char>,
    /// The returned private key, where one was generated and not suppressed.
    pub private_key: Option<PrivateKeyV>,
}

/// A successful response: the assigned service identifier, and the generated
/// private key where the far end returned one.
#[derive(Clone, Debug, PartialEq, Eq)]
pub struct AddOnionResponse {
    /// The service identifier the far end assigned.
    pub service_id: String,
    /// The returned private key, where one was generated and not suppressed.
    pub private_key: Option<PrivateKey>,
}

impl View for AddOnionResponse {
    type V = AddOnionResponseV;

    open spec fn view(&self) -> AddOnionResponseV {
        AddOnionResponseV {
            service_id: self.service_id@,
            private_key: match self.private_key {
                Some(k) => Some(k@),
                None => None,
            },
        }
    }
}

/// The reading of a `PrivateKey` value: algorithm tag and payload split at
/// the first colon. A missing colon, an empty tag or an empty payload is a
/// parse error; a tag outside the recognized set is rejected by name.
pub open spec fn private_key_value_spec(v: Seq<char>) -> Result<PrivateKeyV, TorClientErrorV> {
    match first_index(v, ':') {
        None => Err(TorClientErrorV::PrivateKeyMalformed),
        Some(i) => {
            let tag = v.take(i as int);
            let payload = v.skip(i as int + 1);
            if tag.len() == 0 || payload.len() == 0 {
                Err(TorClientErrorV::PrivateKeyMalformed)
            } else if tag == "ED25519-V3"@ {
                Ok(PrivateKeyV::Ed25519V3(payload))
            } else if tag == "RSA1024"@ {
                Ok(PrivateKeyV::Rsa1024(payload))
            } else {
                Err(TorClientErrorV::UnrecognizedKeyType(tag))
            }
        },
    }
}

/// One pass over the data lines in order: a `ServiceID` line records its
/// value, a `PrivateKey` line records its parsed key or aborts with that
/// line's error, any other key is ignored; a duplicate key takes the
/// last-seen value.
pub open spec fn scan_spec(
    lines: Seq<Seq<char>>,
    sid: Option<Seq<char>>,
    pk: Option<PrivateKeyV>,
) -> Result<(Option<Seq<char>>, Option<PrivateKeyV>), TorClientErrorV>
    decreases lines.len(),
{
    if lines.len() == 0 {
        Ok((sid, pk))
    } else {
        let kv = split_key_value(lines[0]);
        if kv.0 == "ServiceID"@ {
            scan_spec(lines.drop_first(), Some(kv.1), pk)
        } else if kv.0 == "PrivateKey"@ {
            match private_key_value_spec(kv.1) {
                Ok(p) => scan_spec(lines.drop_first(), sid, Some(p)),
                Err(e) => Err(e),
            }
        } else {
            scan_spec(lines.drop_first(), sid, pk)
        }
    }
}

/// The parsing of a complete response: no line at all is an unexpected end of
/// input; an error message on the final status line rejects the command with
/// that message; otherwise the data lines are scanned in order, and a missing
/// service identifier is its own distinct error.
pub open spec fn parse_responses_spec(lines: Seq<Seq<char>>) -> Result<
    AddOnionResponseV,
    TorClientErrorV,
> {
    if lines.len() == 0 {
        Err(TorClientErrorV::UnexpectedEof)
    } else {
        match status_error_spec(lines.last()) {
            Some(msg) => Err(TorClientErrorV::TorCommandFailed(msg)),
            None => match scan_spec(lines.drop_last(), None, None) {
                Err(e) => Err(e),
                Ok(st) => match st.0 {
                    None => Err(TorClientErrorV::AddOnionNoServiceId),
                    Some(sid) => Ok(
                        AddOnionResponseV { service_id: sid, private_key: st.1 },
                    ),
                },
            },
        }
    }
}

/// The value of an optional owned string.
pub open spec fn opt_string_view(o: Option<String>) -> Option<Seq<char>> {
    match o {
        Some(s) => Some(s@),
        None => None,
    }
}

/// The value of an optional private key.
pub open spec fn opt_key_view(o: Option<PrivateKey>) -> Option<PrivateKeyV> {
    match o {
        Some(k) => Some(k@),
        None => None,
    }
}

/// Splits a `PrivateKey` value into its algorithm tag and payload and checks
/// the tag against the recognized set.
fn parse_private_key(value: String) -> (r: Result<PrivateKey, TorClientError>)
    ensures
        match r {
            Ok(pk) => private_key_value_spec(value@) == Ok::<PrivateKeyV, TorClientErrorV>(pk@),
            Err(e) => private_key_value_spec(value@) == Err::<PrivateKeyV, TorClientErrorV>(e@),
        },
{
    let s = value.as_str();
    let n = s.unicode_len();
    match find_char(s, ':') {
        None => Err(TorClientError::PrivateKeyMalformed),
        Some(i) => {
            proof {
                lemma_first_index(s@, ':');
            }
            let tag = s.substring_char(0, i).to_owned();
            let payload = s.substring_char(i + 1, n).to_owned();
            proof {
                assert(tag@ =~= value@.take(i as int));
                assert(payload@ =~= value@.skip(i as int + 1));
            }
            if tag.unicode_len() == 0 || payload.unicode_len() == 0 {
                Err(TorClientError::PrivateKeyMalformed)
            } else if str_eq(tag.as_str(), "ED25519-V3") {
                Ok(PrivateKey::Ed25519V3(payload))
            } else if str_eq(tag.as_str(), "RSA1024") {
                Ok(PrivateKey::Rsa1024(payload))
            } else {
                Err(TorClientError::UnrecognizedKeyType(tag))
            }
        },
    }
}

impl AddOnion {
    /// Consumes the complete response lines of one command invocation and
    /// returns the typed result or the typed error.
    pub fn parse_responses(&self, responses: Vec<ResponseLine>) -> (r: Result<
        AddOnionResponse,
        TorClientError,
    >)
        ensures
            match r {
                Ok(out) => parse_responses_spec(responses.deep_view()) == Ok::<
                    AddOnionResponseV,
                    TorClientErrorV,
                >(out@),
                Err(e) => parse_responses_spec(responses.deep_view()) == Err::<
                    AddOnionResponseV,
                    TorClientErrorV,
                >(e@),
            },
    {
        let ghost all = responses.deep_view();
        let n = responses.len();
        if n == 0 {
            return Err(TorClientError::UnexpectedEof);
        }
        let last = &responses[n - 1];
        proof {
            assert(last@ == all.last());
        }
        if let Some(msg) = last.err() {
            return Err(TorClientError::TorCommandFailed(msg));
        }
        let ghost data = all.drop_last();
        proof {
            assert(data.skip(0) =~= data);
        }
        let mut service_id: Option<String> = None;
        let mut private_key: Option<PrivateKey> = None;
        let mut i: usize = 0;
        while i < n - 1
            invariant
                1 <= n == all.len(),
                all == responses.deep_view(),
                n == responses@.len(),
                data == all.drop_last(),
                i <= n - 1,
                status_error_spec(all.last()) is None,
                scan_spec(data, None, None) == scan_spec(
                    data.skip(i as int),
                    opt_string_view(service_id),
                    opt_key_view(private_key),
                ),
            decreases n - 1 - i,
        {
            let ghost rest = data.skip(i as int);
            let ghost old_sid = opt_string_view(service_id);
            let ghost old_pk = opt_key_view(private_key);
            let line = &responses[i];
            proof {
                assert(line@ == all[i as int]);
                assert(rest[0] == data[i as int]);
                assert(rest.drop_first() =~= data.skip(i as int + 1));
            }
            let kv = crate::response::key_value(line.value.as_str());
            let key = kv.0;
            let value = kv.1;
            if str_eq(key.as_str(), "ServiceID") {
                service_id = Some(value);
            } else if str_eq(key.as_str(), "PrivateKey") {
                match parse_private_key(value) {
                    Ok(pk) => {
                        private_key = Some(pk);
                    },
                    Err(e) => {
                        proof {
                            assert(scan_spec(rest, old_sid, old_pk) == Err::<
                                (Option<Seq<char>>, Option<PrivateKeyV>),
                                TorClientErrorV,
                            >(e@));
                        }
                        return Err(e);
                    },
                }
            }
            proof {
                assert(scan_spec(rest, old_sid, old_pk) == scan_spec(
                    data.skip(i as int + 1),
                    opt_string_view(service_id),
                    opt_key_view(private_key),
                ));
            }
            i += 1;
        }
        proof {
            assert(data.skip(i as int).len() == 0);
        }
        match service_id {
            None => Err(TorClientError::AddOnionNoServiceId),
            Some(sid) => Ok(AddOnionResponse { service_id: sid, private_key }),
        }
    }
}

} // verus!
