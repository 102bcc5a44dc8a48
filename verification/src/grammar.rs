//! The documented grammar of the request line, as a specification-level
//! parser, and the laws it supports: re-parsing a serialized command recovers
//! its exact field values, and the flags' insertion order is observable on
//! the wire.

use vstd::prelude::*;
use crate::add_onion::command_string_spec;
use crate::add_onion::flag_token;
use crate::add_onion::flag_tokens;
use crate::add_onion::flags_wire;
use crate::add_onion::AddOnionFlag;
use crate::add_onion::AddOnionV;
use crate::text::decimal_digits;
use crate::text::first_index;
use crate::text::join_with;
use crate::text::lemma_decimal_round_trip;
use crate::text::lemma_decimal_digits_all_digits;
use crate::text::lemma_first_index_concat;
use crate::text::lemma_first_index_none;
use crate::text::no_char;
use crate::text::all_digits;
use crate::text::parse_decimal;
use crate::types::key_blob_chars;
use crate::types::key_type_token;
use crate::types::target_addr_chars;
use crate::types::KeyBlobV;
use crate::types::KeyType;
use crate::types::TargetAddr;

verus! {

/// The sequence split at every occurrence of `sep`. Splitting the empty
/// sequence gives one empty part; each separator ends a part.
pub open spec fn split_on(s: Seq<char>, sep: char) -> Seq<Seq<char>>
    decreases s.len(),
{
    if s.len() == 0 {
        seq![Seq::<char>::empty()]
    } else if s[0] == sep {
        seq![Seq::<char>::empty()] + split_on(s.drop_first(), sep)
    } else {
        let rest = split_on(s.drop_first(), sep);
        seq![seq![s[0]] + rest[0]] + rest.drop_first()
    }
}

/// What remains of `s` after the prefix `p`, or `None` where `s` does not
/// begin with `p`.
pub open spec fn strip_prefix(s: Seq<char>, p: Seq<char>) -> Option<Seq<char>> {
    if p.len() <= s.len() && s.take(p.len() as int) == p {
        Some(s.skip(p.len() as int))
    } else {
        None
    }
}

/// Splitting always yields at least one part.
pub proof fn lemma_split_on_len(s: Seq<char>, sep: char)
    ensures
        split_on(s, sep).len() >= 1,
    decreases s.len(),
{
    if s.len() == 0 {
    } else if s[0] == sep {
    } else {
        lemma_split_on_len(s.drop_first(), sep);
    }
}

/// A sequence free of the separator splits into itself alone.
pub proof fn lemma_split_on_whole(s: Seq<char>, sep: char)
    requires
        no_char(s, sep),
    ensures
        split_on(s, sep) == seq![s],
    decreases s.len(),
{
    if s.len() == 0 {
        assert(s =~= Seq::<char>::empty());
        assert(split_on(s, sep) =~= seq![s]);
    } else {
        assert(s[0] != sep);
        let tail = s.drop_first();
        lemma_split_on_whole(tail, sep);
        lemma_split_on_len(tail, sep);
        let rest = split_on(tail, sep);
        assert(rest == seq![tail]);
        assert(rest[0] == tail);
        assert(rest.drop_first() =~= Seq::<Seq<char>>::empty());
        assert(seq![s[0]] + tail =~= s);
        assert(split_on(s, sep) =~= seq![s]);
    }
}

/// Splitting `a + [sep] + b` with `sep` absent from `a` yields `a` and then
/// the parts of `b`.
pub proof fn lemma_split_on_concat(a: Seq<char>, b: Seq<char>, sep: char)
    requires
        no_char(a, sep),
    ensures
        split_on(a + seq![sep] + b, sep) == seq![a] + split_on(b, sep),
    decreases a.len(),
{
    let s = a + seq![sep] + b;
    if a.len() == 0 {
        assert(s[0] == sep);
        assert(s.drop_first() =~= b);
        assert(a =~= Seq::<char>::empty());
        assert(split_on(s, sep) =~= seq![a] + split_on(b, sep));
    } else {
        assert(s[0] == a[0]);
        assert(s[0] != sep);
        let tail = a.drop_first();
        assert(s.drop_first() =~= tail + seq![sep] + b);
        lemma_split_on_concat(tail, b, sep);
        let rest = split_on(s.drop_first(), sep);
        assert(rest == seq![tail] + split_on(b, sep));
        lemma_split_on_len(b, sep);
        assert(rest[0] == tail);
        assert(rest.drop_first() =~= split_on(b, sep));
        assert(seq![s[0]] + tail =~= a);
        assert(split_on(s, sep) =~= seq![a] + split_on(b, sep));
    }
}

/// Joining at least two parts begins with the first part and the separator.
pub proof fn lemma_join_with_front(parts: Seq<Seq<char>>, sep: char)
    requires
        parts.len() >= 2,
    ensures
        join_with(parts, sep) == parts[0] + seq![sep] + join_with(parts.drop_first(), sep),
    decreases parts.len(),
{
    if parts.len() == 2 {
        assert(parts.drop_last() =~= seq![parts[0]]);
        assert(parts.drop_first() =~= seq![parts[1]]);
        assert(join_with(seq![parts[0]], sep) == parts[0]);
        assert(join_with(seq![parts[1]], sep) == parts[1]);
        assert(parts.last() == parts[1]);
    } else {
        let front = parts.drop_last();
        lemma_join_with_front(front, sep);
        assert(front.drop_first() =~= parts.drop_first().drop_last());
        assert(front[0] == parts[0]);
        let mid = parts.drop_first();
        assert(mid.len() >= 2);
        assert(mid.last() == parts.last());
        assert(join_with(parts, sep) == join_with(front, sep) + seq![sep] + parts.last());
        assert(join_with(front, sep) == parts[0] + seq![sep] + join_with(mid.drop_last(), sep));
        assert(join_with(mid, sep) == join_with(mid.drop_last(), sep) + seq![sep] + mid.last());
        assert(join_with(parts, sep) =~= parts[0] + seq![sep] + join_with(mid, sep));
    }
}

/// Splitting a join of separator-free parts recovers the parts.
pub proof fn lemma_split_join(parts: Seq<Seq<char>>, sep: char)
    requires
        parts.len() >= 1,
        forall|i: int| 0 <= i < parts.len() ==> no_char(#[trigger] parts[i], sep),
    ensures
        split_on(join_with(parts, sep), sep) == parts,
    decreases parts.len(),
{
    if parts.len() == 1 {
        lemma_split_on_whole(parts[0], sep);
        assert(seq![parts[0]] =~= parts);
    } else {
        lemma_join_with_front(parts, sep);
        let tail = parts.drop_first();
        lemma_split_join(tail, sep);
        lemma_split_on_concat(parts[0], join_with(tail, sep), sep);
        assert(seq![parts[0]] + tail =~= parts);
    }
}

/// A join of separator-free parts is free of any character that is neither
/// the separator nor in any part.
pub proof fn lemma_join_no_char(parts: Seq<Seq<char>>, sep: char, c: char)
    requires
        c != sep,
        forall|i: int| 0 <= i < parts.len() ==> no_char(#[trigger] parts[i], c),
    ensures
        no_char(join_with(parts, sep), c),
    decreases parts.len(),
{
    if parts.len() == 0 {
    } else if parts.len() == 1 {
        assert(join_with(parts, sep) == parts[0]);
    } else {
        lemma_join_no_char(parts.drop_last(), sep, c);
        assert(parts.last() == parts[parts.len() - 1]);
    }
}

/// The key-material category a wire token names, if recognized.
pub open spec fn key_type_of_token(t: Seq<char>) -> Option<KeyType> {
    if t == "NEW"@ {
        Some(KeyType::New)
    } else if t == "RSA1024"@ {
        Some(KeyType::Rsa1024)
    } else if t == "ED25519-V3"@ {
        Some(KeyType::Ed25519V3)
    } else {
        None
    }
}

/// The key blob a wire spelling denotes: the sentinel where it reads `BEST`,
/// literal key material otherwise.
pub open spec fn key_blob_of_chars(b: Seq<char>) -> KeyBlobV {
    if b == "BEST"@ {
        KeyBlobV::Best
    } else {
        KeyBlobV::Literal(b)
    }
}

/// The key field read back: category token and blob split at the first colon.
pub open spec fn parse_key_field(f: Seq<char>) -> Option<(KeyType, KeyBlobV)> {
    match first_index(f, ':') {
        None => None,
        Some(i) => match key_type_of_token(f.take(i as int)) {
            None => None,
            Some(kt) => Some((kt, key_blob_of_chars(f.skip(i as int + 1)))),
        },
    }
}

/// The flag a wire token names, if recognized.
pub open spec fn flag_of_token(t: Seq<char>) -> Option<AddOnionFlag> {
    if t == "DiscardPK"@ {
        Some(AddOnionFlag::DiscardPK)
    } else if t == "Detach"@ {
        Some(AddOnionFlag::Detach)
    } else if t == "BasicAuth"@ {
        Some(AddOnionFlag::BasicAuth)
    } else if t == "NonAnonymous"@ {
        Some(AddOnionFlag::NonAnonymous)
    } else if t == "MaxStreamsCloseCircuit"@ {
        Some(AddOnionFlag::MaxStreamsCloseCircuit)
    } else {
        None
    }
}

/// Every token read as its flag, in order; `None` on any unrecognized token.
pub open spec fn parse_flag_list(parts: Seq<Seq<char>>) -> Option<Seq<AddOnionFlag>>
    decreases parts.len(),
{
    if parts.len() == 0 {
        Some(Seq::empty())
    } else {
        match flag_of_token(parts[0]) {
            None => None,
            Some(f) => match parse_flag_list(parts.drop_first()) {
                None => None,
                Some(rest) => Some(seq![f] + rest),
            },
        }
    }
}

/// The `Flags=` field read back: its comma-separated tokens as flags.
pub open spec fn parse_flags_field(f: Seq<char>) -> Option<Seq<AddOnionFlag>> {
    match strip_prefix(f, "Flags="@) {
        None => None,
        Some(v) => parse_flag_list(split_on(v, ',')),
    }
}

/// A canonical decimal that fits in sixteen bits.
pub open spec fn parse_u16(s: Seq<char>) -> Option<u16> {
    match parse_decimal(s) {
        None => None,
        Some(v) => if v <= u16::MAX {
            Some(v as u16)
        } else {
            None
        },
    }
}

/// A canonical decimal that fits in eight bits.
pub open spec fn parse_u8(s: Seq<char>) -> Option<u8> {
    match parse_decimal(s) {
        None => None,
        Some(v) => if v <= u8::MAX {
            Some(v as u8)
        } else {
            None
        },
    }
}

/// The `NumStreams=` field read back.
pub open spec fn parse_num_streams_field(f: Seq<char>) -> Option<u16> {
    match strip_prefix(f, "NumStreams="@) {
        None => None,
        Some(v) => parse_u16(v),
    }
}

/// An `address:port` forwarding target read back: four dot-separated octets,
/// a colon, and the port.
pub open spec fn parse_target_addr(s: Seq<char>) -> Option<TargetAddr> {
    match first_index(s, ':') {
        None => None,
        Some(i) => {
            let octs = split_on(s.take(i as int), '.');
            let port = parse_u16(s.skip(i as int + 1));
            if octs.len() == 4 && parse_u8(octs[0]) is Some && parse_u8(octs[1]) is Some
                && parse_u8(octs[2]) is Some && parse_u8(octs[3]) is Some && port is Some {
                Some(
                    TargetAddr {
                        o0: parse_u8(octs[0])->0,
                        o1: parse_u8(octs[1])->0,
                        o2: parse_u8(octs[2])->0,
                        o3: parse_u8(octs[3])->0,
                        port: port->0,
                    },
                )
            } else {
                None
            }
        },
    }
}

/// The `Port=` field read back: the virtual port, and after a comma the
/// optional forwarding target.
pub open spec fn parse_port_field(f: Seq<char>) -> Option<(u16, Option<TargetAddr>)> {
    match strip_prefix(f, "Port="@) {
        None => None,
        Some(v) => match first_index(v, ',') {
            None => match parse_u16(v) {
                None => None,
                Some(p) => Some((p, None)),
            },
            Some(i) => match parse_u16(v.take(i as int)) {
                None => None,
                Some(p) => match parse_target_addr(v.skip(i as int + 1)) {
                    None => None,
                    Some(a) => Some((p, Some(a))),
                },
            },
        },
    }
}

/// The parsed command assembled once the port field is read.
pub open spec fn assemble(
    kt: KeyType,
    blob: KeyBlobV,
    flags: Seq<AddOnionFlag>,
    ns: Option<u16>,
    port: Option<(u16, Option<TargetAddr>)>,
) -> Option<AddOnionV> {
    match port {
        None => None,
        Some(p) => Some(
            AddOnionV { key_type: kt, key_blob: blob, flags: flags, port: p, num_streams: ns },
        ),
    }
}

/// The clause fields after the key field, in their fixed order: an optional
/// `Flags=`, an optional `NumStreams=`, and the mandatory final `Port=`.
pub open spec fn parse_clauses(fields: Seq<Seq<char>>, kt: KeyType, blob: KeyBlobV) -> Option<
    AddOnionV,
> {
    if fields.len() == 1 {
        assemble(kt, blob, Seq::empty(), None, parse_port_field(fields[0]))
    } else if fields.len() == 2 {
        if strip_prefix(fields[0], "Flags="@) is Some {
            match parse_flags_field(fields[0]) {
                None => None,
                Some(fl) => assemble(kt, blob, fl, None, parse_port_field(fields[1])),
            }
        } else {
            match parse_num_streams_field(fields[0]) {
                None => None,
                Some(ns) => assemble(kt, blob, Seq::empty(), Some(ns), parse_port_field(fields[1])),
            }
        }
    } else if fields.len() == 3 {
        match parse_flags_field(fields[0]) {
            None => None,
            Some(fl) => match parse_num_streams_field(fields[1]) {
                None => None,
                Some(ns) => assemble(kt, blob, fl, Some(ns), parse_port_field(fields[2])),
            },
        }
    } else {
        None
    }
}

/// The documented request grammar: the verb, the key field, then the clause
/// fields, all separated by single spaces.
pub open spec fn parse_request(s: Seq<char>) -> Option<AddOnionV> {
    let fields = split_on(s, ' ');
    if fields.len() < 3 || fields.len() > 5 {
        None
    } else if fields[0] != "ADD_ONION"@ {
        None
    } else {
        match parse_key_field(fields[1]) {
            None => None,
            Some(kb) => parse_clauses(fields.skip(2), kb.0, kb.1),
        }
    }
}


/// A sequence of digit characters contains none of the grammar's separators.
pub proof fn lemma_digits_no_sep(s: Seq<char>)
    requires
        all_digits(s),
    ensures
        no_char(s, ' '),
        no_char(s, ','),
        no_char(s, ':'),
        no_char(s, '.'),
{
}

/// Concatenation preserves the absence of a character.
pub proof fn lemma_no_char_concat(a: Seq<char>, b: Seq<char>, c: char)
    requires
        no_char(a, c),
        no_char(b, c),
    ensures
        no_char(a + b, c),
{
    assert forall|i: int| 0 <= i < (a + b).len() implies (a + b)[i] != c by {
        if i < a.len() {
            assert((a + b)[i] == a[i]);
        } else {
            assert((a + b)[i] == b[i - a.len()]);
        }
    }
}

/// Each flag token is free of spaces and commas, and reading the token back
/// recovers the flag.
pub proof fn lemma_flag_token_facts(f: AddOnionFlag)
    ensures
        no_char(flag_token(f), ' '),
        no_char(flag_token(f), ','),
        flag_of_token(flag_token(f)) == Some(f),
{
    reveal_strlit("DiscardPK");
    reveal_strlit("Detach");
    reveal_strlit("BasicAuth");
    reveal_strlit("NonAnonymous");
    reveal_strlit("MaxStreamsCloseCircuit");
    assert("Detach"@ != "DiscardPK"@) by {
        assert("Detach"@.len() == 6);
        assert("DiscardPK"@.len() == 9);
    }
    assert("BasicAuth"@ != "DiscardPK"@) by {
        assert("BasicAuth"@[0] == 'B');
        assert("DiscardPK"@[0] == 'D');
    }
    assert("BasicAuth"@ != "Detach"@) by {
        assert("BasicAuth"@.len() == 9);
        assert("Detach"@.len() == 6);
    }
    assert("NonAnonymous"@ != "DiscardPK"@) by {
        assert("NonAnonymous"@.len() == 12);
        assert("DiscardPK"@.len() == 9);
    }
    assert("NonAnonymous"@ != "Detach"@) by {
        assert("NonAnonymous"@.len() == 12);
        assert("Detach"@.len() == 6);
    }
    assert("NonAnonymous"@ != "BasicAuth"@) by {
        assert("NonAnonymous"@.len() == 12);
        assert("BasicAuth"@.len() == 9);
    }
    assert("MaxStreamsCloseCircuit"@.len() == 22);
    assert("MaxStreamsCloseCircuit"@ != "DiscardPK"@) by {
        assert("DiscardPK"@.len() == 9);
    }
    assert("MaxStreamsCloseCircuit"@ != "Detach"@) by {
        assert("Detach"@.len() == 6);
    }
    assert("MaxStreamsCloseCircuit"@ != "BasicAuth"@) by {
        assert("BasicAuth"@.len() == 9);
    }
    assert("MaxStreamsCloseCircuit"@ != "NonAnonymous"@) by {
        assert("NonAnonymous"@.len() == 12);
    }
}

/// The flags' token sequence is free of spaces and commas tokenwise, and the
/// joined flag list is free of spaces.
pub proof fn lemma_flag_tokens_facts(flags: Seq<AddOnionFlag>)
    ensures
        forall|i: int| 0 <= i < flags.len() ==> no_char(#[trigger] flag_tokens(flags)[i], ' ')
            && no_char(flag_tokens(flags)[i], ','),
        no_char(flags_wire(flags), ' '),
{
    assert forall|i: int| 0 <= i < flags.len() implies no_char(
        #[trigger] flag_tokens(flags)[i],
        ' ',
    ) && no_char(flag_tokens(flags)[i], ',') by {
        lemma_flag_token_facts(flags[i]);
    }
    lemma_join_no_char(flag_tokens(flags), ',', ' ');
}

/// Reading the flags' tokens back, in order, recovers the flags.
pub proof fn lemma_parse_flag_list(flags: Seq<AddOnionFlag>)
    ensures
        parse_flag_list(flag_tokens(flags)) == Some(flags),
    decreases flags.len(),
{
    if flags.len() == 0 {
        assert(flag_tokens(flags) =~= Seq::<Seq<char>>::empty());
        assert(Some(Seq::<AddOnionFlag>::empty()) == Some(flags)) by {
            assert(flags =~= Seq::<AddOnionFlag>::empty());
        }
    } else {
        lemma_flag_token_facts(flags[0]);
        lemma_parse_flag_list(flags.drop_first());
        assert(flag_tokens(flags)[0] == flag_token(flags[0]));
        assert(flag_tokens(flags).drop_first() =~= flag_tokens(flags.drop_first()));
        assert(seq![flags[0]] + flags.drop_first() =~= flags);
    }
}

/// Each key-type token is free of spaces and colons, and reading the token
/// back recovers the key type.
pub proof fn lemma_key_type_token_facts(k: KeyType)
    ensures
        no_char(key_type_token(k), ' '),
        no_char(key_type_token(k), ':'),
        key_type_of_token(key_type_token(k)) == Some(k),
{
    reveal_strlit("NEW");
    reveal_strlit("RSA1024");
    reveal_strlit("ED25519-V3");
    assert("RSA1024"@ != "NEW"@) by {
        assert("RSA1024"@.len() == 7);
        assert("NEW"@.len() == 3);
    }
    assert("ED25519-V3"@ != "NEW"@) by {
        assert("ED25519-V3"@.len() == 10);
        assert("NEW"@.len() == 3);
    }
    assert("ED25519-V3"@ != "RSA1024"@) by {
        assert("ED25519-V3"@.len() == 10);
        assert("RSA1024"@.len() == 7);
    }
}

/// A command value whose wire line the documented grammar can read back: a
/// literal key blob holds no space and is not the generation sentinel.
pub open spec fn serializable(c: AddOnionV) -> bool {
    c.key_blob matches KeyBlobV::Literal(s) ==> (no_char(s, ' ') && s != "BEST"@)
}

/// The key blob's wire spelling is free of spaces, and reading it back
/// recovers the blob.
pub proof fn lemma_key_blob_facts(b: KeyBlobV)
    requires
        b matches KeyBlobV::Literal(s) ==> (no_char(s, ' ') && s != "BEST"@),
    ensures
        no_char(key_blob_chars(b), ' '),
        key_blob_of_chars(key_blob_chars(b)) == b,
{
    reveal_strlit("BEST");
}

/// Reading the serialized key field back recovers the key type and blob.
pub proof fn lemma_key_field_round_trip(k: KeyType, b: KeyBlobV)
    requires
        b matches KeyBlobV::Literal(s) ==> (no_char(s, ' ') && s != "BEST"@),
    ensures
        parse_key_field(key_type_token(k) + ":"@ + key_blob_chars(b)) == Some((k, b)),
{
    lemma_key_type_token_facts(k);
    lemma_key_blob_facts(b);
    assert(":"@ =~= seq![':']) by {
        reveal_strlit(":");
    }
    let tok = key_type_token(k);
    let blob = key_blob_chars(b);
    let f = tok + ":"@ + blob;
    assert(f =~= tok + seq![':'] + blob);
    lemma_first_index_concat(tok, blob, ':');
    assert(first_index(f, ':') == Some(tok.len()));
    let i = tok.len() as int;
    assert(f.take(i) =~= tok);
    assert(f.skip(i + 1) =~= blob);
}

/// Reading the serialized `Flags=` field back recovers the flag sequence.
pub proof fn lemma_flags_field_round_trip(flags: Seq<AddOnionFlag>)
    requires
        flags.len() >= 1,
    ensures
        parse_flags_field("Flags="@ + flags_wire(flags)) == Some(flags),
{
    reveal_strlit("Flags=");
    assert("Flags="@.len() == 6);
    let f = "Flags="@ + flags_wire(flags);
    assert(f.take(6) =~= "Flags="@);
    assert(f.skip(6) =~= flags_wire(flags));
    lemma_flag_tokens_facts(flags);
    lemma_split_join(flag_tokens(flags), ',');
    lemma_parse_flag_list(flags);
}

/// Reading the serialized `NumStreams=` field back recovers the bound.
pub proof fn lemma_num_streams_field_round_trip(n: u16)
    ensures
        parse_num_streams_field("NumStreams="@ + decimal_digits(n as nat)) == Some(n),
{
    reveal_strlit("NumStreams=");
    assert("NumStreams="@.len() == 11);
    let f = "NumStreams="@ + decimal_digits(n as nat);
    assert(f.take(11) =~= "NumStreams="@);
    assert(f.skip(11) =~= decimal_digits(n as nat));
    lemma_decimal_round_trip(n as nat);
}

/// The forwarding address's wire form is free of spaces and commas, and
/// reading it back recovers the address.
pub proof fn lemma_target_addr_round_trip(a: TargetAddr)
    ensures
        parse_target_addr(target_addr_chars(a)) == Some(a),
        no_char(target_addr_chars(a), ' '),
{
    let d0 = decimal_digits(a.o0 as nat);
    let d1 = decimal_digits(a.o1 as nat);
    let d2 = decimal_digits(a.o2 as nat);
    let d3 = decimal_digits(a.o3 as nat);
    let dp = decimal_digits(a.port as nat);
    lemma_decimal_digits_all_digits(a.o0 as nat);
    lemma_decimal_digits_all_digits(a.o1 as nat);
    lemma_decimal_digits_all_digits(a.o2 as nat);
    lemma_decimal_digits_all_digits(a.o3 as nat);
    lemma_decimal_digits_all_digits(a.port as nat);
    lemma_digits_no_sep(d0);
    lemma_digits_no_sep(d1);
    lemma_digits_no_sep(d2);
    lemma_digits_no_sep(d3);
    lemma_digits_no_sep(dp);
    lemma_decimal_round_trip(a.o0 as nat);
    lemma_decimal_round_trip(a.o1 as nat);
    lemma_decimal_round_trip(a.o2 as nat);
    lemma_decimal_round_trip(a.o3 as nat);
    lemma_decimal_round_trip(a.port as nat);
    assert(":"@ =~= seq![':']) by {
        reveal_strlit(":");
    }
    assert("."@ =~= seq!['.']) by {
        reveal_strlit(".");
    }
    let parts = seq![d0, d1, d2, d3];
    let host = join_with(parts, '.');
    assert(parts.drop_last() =~= seq![d0, d1, d2]);
    assert(seq![d0, d1, d2].drop_last() =~= seq![d0, d1]);
    assert(seq![d0, d1].drop_last() =~= seq![d0]);
    assert(join_with(seq![d0], '.') == d0);
    assert(join_with(seq![d0, d1], '.') == d0 + seq!['.'] + d1);
    assert(join_with(seq![d0, d1, d2], '.') == d0 + seq!['.'] + d1 + seq!['.'] + d2);
    assert(host == d0 + seq!['.'] + d1 + seq!['.'] + d2 + seq!['.'] + d3);
    let s = target_addr_chars(a);
    assert(s =~= host + seq![':'] + dp);
    assert(forall|i: int| 0 <= i < parts.len() ==> no_char(#[trigger] parts[i], ':'));
    assert(forall|i: int| 0 <= i < parts.len() ==> no_char(#[trigger] parts[i], ' '));
    assert(forall|i: int| 0 <= i < parts.len() ==> no_char(#[trigger] parts[i], '.'));
    lemma_join_no_char(parts, '.', ':');
    lemma_join_no_char(parts, '.', ' ');
    lemma_first_index_concat(host, dp, ':');
    assert(first_index(s, ':') == Some(host.len()));
    let i = host.len() as int;
    assert(s.take(i) =~= host);
    assert(s.skip(i + 1) =~= dp);
    lemma_split_join(parts, '.');
    assert(split_on(host, '.') == parts);
    assert(parse_target_addr(s) == Some(a));
    lemma_no_char_concat(host, seq![':'], ' ');
    lemma_no_char_concat(host + seq![':'], dp, ' ');
    assert(no_char(s, ' '));
}

/// The `Port=` field of a command, without its leading space.
pub open spec fn port_field_chars(port: (u16, Option<TargetAddr>)) -> Seq<char> {
    "Port="@ + decimal_digits(port.0 as nat) + (match port.1 {
        None => Seq::<char>::empty(),
        Some(a) => ","@ + target_addr_chars(a),
    })
}

/// The serialized `Port=` field is free of spaces, and reading it back
/// recovers the virtual port and the optional forwarding address.
pub proof fn lemma_port_field_round_trip(port: (u16, Option<TargetAddr>))
    ensures
        parse_port_field(port_field_chars(port)) == Some(port),
        no_char(port_field_chars(port), ' '),
{
    reveal_strlit("Port=");
    assert("Port="@.len() == 5);
    let dv = decimal_digits(port.0 as nat);
    lemma_decimal_digits_all_digits(port.0 as nat);
    lemma_digits_no_sep(dv);
    lemma_decimal_round_trip(port.0 as nat);
    let f = port_field_chars(port);
    match port.1 {
        None => {
            assert(f.take(5) =~= "Port="@);
            assert(f.skip(5) =~= dv);
            lemma_first_index_none(dv, ',');
            lemma_no_char_concat("Port="@, dv, ' ');
            assert(f =~= "Port="@ + dv);
        },
        Some(a) => {
            lemma_target_addr_round_trip(a);
            let ac = target_addr_chars(a);
            assert(","@ =~= seq![',']) by {
                reveal_strlit(",");
            }
            assert(f.take(5) =~= "Port="@);
            let v = f.skip(5);
            assert(v =~= dv + seq![','] + ac);
            lemma_first_index_concat(dv, ac, ',');
            assert(first_index(v, ',') == Some(dv.len()));
            let i = dv.len() as int;
            assert(v.take(i) =~= dv);
            assert(v.skip(i + 1) =~= ac);
            assert(parse_port_field(f) == Some(port));
            lemma_no_char_concat(dv, seq![','], ' ');
            lemma_no_char_concat(dv + seq![','], ac, ' ');
            lemma_no_char_concat("Port="@, dv + seq![','] + ac, ' ');
            assert(f =~= "Port="@ + (dv + seq![','] + ac));
        },
    }
}

/// The key field of a command: category token and blob joined by a colon.
pub open spec fn key_field_chars(c: AddOnionV) -> Seq<char> {
    key_type_token(c.key_type) + ":"@ + key_blob_chars(c.key_blob)
}

/// The space-separated fields of a command's request line, in their fixed
/// order: the verb, the key field, the optional clauses, the port clause.
pub open spec fn request_fields(c: AddOnionV) -> Seq<Seq<char>> {
    seq!["ADD_ONION"@, key_field_chars(c)] + (if c.flags.len() > 0 {
        seq!["Flags="@ + flags_wire(c.flags)]
    } else {
        Seq::<Seq<char>>::empty()
    }) + (match c.num_streams {
        Some(n) => seq!["NumStreams="@ + decimal_digits(n as nat)],
        None => Seq::<Seq<char>>::empty(),
    }) + seq![port_field_chars(c.port)]
}


/// The request line is its fields joined by single spaces: the case with a
/// `Flags=` clause and a `NumStreams=` clause.
#[verifier::rlimit(50)]
proof fn lemma_command_fields_flags_ns(c: AddOnionV)
    requires
        c.flags.len() > 0,
        c.num_streams is Some,
    ensures
        command_string_spec(c) == join_with(request_fields(c), ' '),
{
    reveal_strlit("ADD_ONION ");
    reveal_strlit("ADD_ONION");
    reveal_strlit(" Flags=");
    reveal_strlit("Flags=");
    reveal_strlit(" NumStreams=");
    reveal_strlit("NumStreams=");
    reveal_strlit(" Port=");
    reveal_strlit("Port=");
    assert("ADD_ONION "@ =~= "ADD_ONION"@ + seq![' ']);
    assert(" Flags="@ =~= seq![' '] + "Flags="@);
    assert(" NumStreams="@ =~= seq![' '] + "NumStreams="@);
    assert(" Port="@ =~= seq![' '] + "Port="@);
    let f0 = "ADD_ONION"@;
    let f1 = key_field_chars(c);
    let ff = "Flags="@ + flags_wire(c.flags);
    let fns = "NumStreams="@ + decimal_digits(c.num_streams->0 as nat);
    let fp = port_field_chars(c.port);
    let fields = request_fields(c);
    assert(fields =~= seq![f0, f1, ff, fns, fp]);
    assert(seq![f0, f1, ff, fns, fp].drop_last() =~= seq![f0, f1, ff, fns]);
    assert(seq![f0, f1, ff, fns].drop_last() =~= seq![f0, f1, ff]);
    assert(seq![f0, f1, ff].drop_last() =~= seq![f0, f1]);
    assert(seq![f0, f1].drop_last() =~= seq![f0]);
    assert(join_with(seq![f0], ' ') == f0);
    assert(join_with(seq![f0, f1], ' ') == f0 + seq![' '] + f1);
    assert(join_with(seq![f0, f1, ff], ' ') == f0 + seq![' '] + f1 + seq![' '] + ff);
    assert(join_with(seq![f0, f1, ff, fns], ' ') == f0 + seq![' '] + f1 + seq![' '] + ff
        + seq![' '] + fns);
    assert(join_with(fields, ' ') == f0 + seq![' '] + f1 + seq![' '] + ff + seq![' '] + fns
        + seq![' '] + fp);
    assert(command_string_spec(c) =~= f0 + seq![' '] + f1 + seq![' '] + ff + seq![' '] + fns
        + seq![' '] + fp);
}

/// The request line is its fields joined by single spaces: the case with a
/// `Flags=` clause and no `NumStreams=` clause.
#[verifier::rlimit(50)]
proof fn lemma_command_fields_flags(c: AddOnionV)
    requires
        c.flags.len() > 0,
        c.num_streams is None,
    ensures
        command_string_spec(c) == join_with(request_fields(c), ' '),
{
    reveal_strlit("ADD_ONION ");
    reveal_strlit("ADD_ONION");
    reveal_strlit(" Flags=");
    reveal_strlit("Flags=");
    reveal_strlit(" Port=");
    reveal_strlit("Port=");
    assert("ADD_ONION "@ =~= "ADD_ONION"@ + seq![' ']);
    assert(" Flags="@ =~= seq![' '] + "Flags="@);
    assert(" Port="@ =~= seq![' '] + "Port="@);
    let f0 = "ADD_ONION"@;
    let f1 = key_field_chars(c);
    let ff = "Flags="@ + flags_wire(c.flags);
    let fp = port_field_chars(c.port);
    let fields = request_fields(c);
    assert(fields =~= seq![f0, f1, ff, fp]);
    assert(seq![f0, f1, ff, fp].drop_last() =~= seq![f0, f1, ff]);
    assert(seq![f0, f1, ff].drop_last() =~= seq![f0, f1]);
    assert(seq![f0, f1].drop_last() =~= seq![f0]);
    assert(join_with(seq![f0], ' ') == f0);
    assert(join_with(seq![f0, f1], ' ') == f0 + seq![' '] + f1);
    assert(join_with(seq![f0, f1, ff], ' ') == f0 + seq![' '] + f1 + seq![' '] + ff);
    assert(join_with(fields, ' ') == f0 + seq![' '] + f1 + seq![' '] + ff + seq![' '] + fp);
    assert(command_string_spec(c) =~= f0 + seq![' '] + f1 + seq![' '] + ff + seq![' '] + fp);
}

/// The request line is its fields joined by single spaces: the case with no
/// `Flags=` clause and a `NumStreams=` clause.
#[verifier::rlimit(50)]
proof fn lemma_command_fields_ns(c: AddOnionV)
    requires
        c.flags.len() == 0,
        c.num_streams is Some,
    ensures
        command_string_spec(c) == join_with(request_fields(c), ' '),
{
    reveal_strlit("ADD_ONION ");
    reveal_strlit("ADD_ONION");
    reveal_strlit(" NumStreams=");
    reveal_strlit("NumStreams=");
    reveal_strlit(" Port=");
    reveal_strlit("Port=");
    assert("ADD_ONION "@ =~= "ADD_ONION"@ + seq![' ']);
    assert(" NumStreams="@ =~= seq![' '] + "NumStreams="@);
    assert(" Port="@ =~= seq![' '] + "Port="@);
    let f0 = "ADD_ONION"@;
    let f1 = key_field_chars(c);
    let fns = "NumStreams="@ + decimal_digits(c.num_streams->0 as nat);
    let fp = port_field_chars(c.port);
    let fields = request_fields(c);
    assert(fields =~= seq![f0, f1, fns, fp]);
    assert(seq![f0, f1, fns, fp].drop_last() =~= seq![f0, f1, fns]);
    assert(seq![f0, f1, fns].drop_last() =~= seq![f0, f1]);
    assert(seq![f0, f1].drop_last() =~= seq![f0]);
    assert(join_with(seq![f0], ' ') == f0);
    assert(join_with(seq![f0, f1], ' ') == f0 + seq![' '] + f1);
    assert(join_with(seq![f0, f1, fns], ' ') == f0 + seq![' '] + f1 + seq![' '] + fns);
    assert(join_with(fields, ' ') == f0 + seq![' '] + f1 + seq![' '] + fns + seq![' '] + fp);
    assert(command_string_spec(c) =~= f0 + seq![' '] + f1 + seq![' '] + fns + seq![' '] + fp);
}

/// The request line is its fields joined by single spaces: the case with
/// neither optional clause.
#[verifier::rlimit(50)]
proof fn lemma_command_fields_plain(c: AddOnionV)
    requires
        c.flags.len() == 0,
        c.num_streams is None,
    ensures
        command_string_spec(c) == join_with(request_fields(c), ' '),
{
    reveal_strlit("ADD_ONION ");
    reveal_strlit("ADD_ONION");
    reveal_strlit(" Port=");
    reveal_strlit("Port=");
    assert("ADD_ONION "@ =~= "ADD_ONION"@ + seq![' ']);
    assert(" Port="@ =~= seq![' '] + "Port="@);
    let f0 = "ADD_ONION"@;
    let f1 = key_field_chars(c);
    let fp = port_field_chars(c.port);
    let fields = request_fields(c);
    assert(fields =~= seq![f0, f1, fp]);
    assert(seq![f0, f1, fp].drop_last() =~= seq![f0, f1]);
    assert(seq![f0, f1].drop_last() =~= seq![f0]);
    assert(join_with(seq![f0], ' ') == f0);
    assert(join_with(seq![f0, f1], ' ') == f0 + seq![' '] + f1);
    assert(join_with(fields, ' ') == f0 + seq![' '] + f1 + seq![' '] + fp);
    assert(command_string_spec(c) =~= f0 + seq![' '] + f1 + seq![' '] + fp);
}

/// The request line is its fields joined by single spaces.
pub proof fn lemma_command_fields(c: AddOnionV)
    ensures
        command_string_spec(c) == join_with(request_fields(c), ' '),
{
    if c.flags.len() > 0 {
        if c.num_streams is Some {
            lemma_command_fields_flags_ns(c);
        } else {
            lemma_command_fields_flags(c);
        }
    } else {
        if c.num_streams is Some {
            lemma_command_fields_ns(c);
        } else {
            lemma_command_fields_plain(c);
        }
    }
}

/// Every field of the request line is free of spaces.
proof fn lemma_fields_space_free(c: AddOnionV)
    requires
        serializable(c),
    ensures
        forall|i: int| 0 <= i < request_fields(c).len() ==> no_char(
            #[trigger] request_fields(c)[i],
            ' ',
        ),
        request_fields(c).len() >= 3,
{
    reveal_strlit("ADD_ONION");
    reveal_strlit("Flags=");
    reveal_strlit("NumStreams=");
    reveal_strlit(":");
    let fields = request_fields(c);
    lemma_key_type_token_facts(c.key_type);
    lemma_key_blob_facts(c.key_blob);
    lemma_no_char_concat(key_type_token(c.key_type), ":"@, ' ');
    lemma_no_char_concat(key_type_token(c.key_type) + ":"@, key_blob_chars(c.key_blob), ' ');
    assert(no_char(key_field_chars(c), ' '));
    lemma_flag_tokens_facts(c.flags);
    lemma_no_char_concat("Flags="@, flags_wire(c.flags), ' ');
    if c.num_streams is Some {
        lemma_decimal_digits_all_digits(c.num_streams->0 as nat);
        lemma_digits_no_sep(decimal_digits(c.num_streams->0 as nat));
        lemma_no_char_concat("NumStreams="@, decimal_digits(c.num_streams->0 as nat), ' ');
    }
    lemma_port_field_round_trip(c.port);
    assert forall|i: int| 0 <= i < fields.len() implies no_char(#[trigger] fields[i], ' ') by {
        if c.flags.len() > 0 {
            match c.num_streams {
                Some(n) => {
                    assert(fields =~= seq!["ADD_ONION"@, key_field_chars(c), "Flags="@ + flags_wire(
                        c.flags,
                    ), "NumStreams="@ + decimal_digits(n as nat), port_field_chars(c.port)]);
                },
                None => {
                    assert(fields =~= seq!["ADD_ONION"@, key_field_chars(c), "Flags="@ + flags_wire(
                        c.flags,
                    ), port_field_chars(c.port)]);
                },
            }
        } else {
            match c.num_streams {
                Some(n) => {
                    assert(fields =~= seq!["ADD_ONION"@, key_field_chars(c), "NumStreams="@
                        + decimal_digits(n as nat), port_field_chars(c.port)]);
                },
                None => {
                    assert(fields =~= seq!["ADD_ONION"@, key_field_chars(c), port_field_chars(
                        c.port,
                    )]);
                },
            }
        }
    }
}

/// A `NumStreams=` field does not begin with the `Flags=` prefix.
proof fn lemma_ns_field_not_flags(n: u16)
    ensures
        strip_prefix("NumStreams="@ + decimal_digits(n as nat), "Flags="@) is None,
{
    reveal_strlit("NumStreams=");
    reveal_strlit("Flags=");
    let f = "NumStreams="@ + decimal_digits(n as nat);
    assert(f[0] == 'N');
    if strip_prefix(f, "Flags="@) is Some {
        assert(f.take(6)[0] == f[0]);
        assert("Flags="@[0] == 'F');
    }
}

/// Law: serializing a command and re-parsing the produced line against the
/// documented request grammar recovers the exact field values. A literal key
/// blob that embeds a space, or that spells the generation sentinel, cannot
/// be read back; such blobs are excluded.
#[verifier::rlimit(80)]
pub proof fn lemma_request_round_trip(c: AddOnionV)
    requires
        serializable(c),
    ensures
        parse_request(command_string_spec(c)) == Some(c),
{
    let s = command_string_spec(c);
    let fields = request_fields(c);
    lemma_command_fields(c);
    lemma_fields_space_free(c);
    lemma_split_join(fields, ' ');
    assert(split_on(s, ' ') == fields);
    lemma_key_field_round_trip(c.key_type, c.key_blob);
    lemma_port_field_round_trip(c.port);
    let f0 = "ADD_ONION"@;
    let f1 = key_field_chars(c);
    let fp = port_field_chars(c.port);
    if c.flags.len() > 0 {
        let ff = "Flags="@ + flags_wire(c.flags);
        lemma_flags_field_round_trip(c.flags);
        match c.num_streams {
            Some(n) => {
                let fns = "NumStreams="@ + decimal_digits(n as nat);
                lemma_num_streams_field_round_trip(n);
                assert(fields =~= seq![f0, f1, ff, fns, fp]);
                assert(fields.skip(2) =~= seq![ff, fns, fp]);
                assert(parse_clauses(seq![ff, fns, fp], c.key_type, c.key_blob) == Some(c));
            },
            None => {
                assert(fields =~= seq![f0, f1, ff, fp]);
                assert(fields.skip(2) =~= seq![ff, fp]);
                assert(parse_flags_field(ff) == Some(c.flags));
                assert(strip_prefix(ff, "Flags="@) is Some);
                assert(parse_clauses(seq![ff, fp], c.key_type, c.key_blob) == Some(c));
            },
        }
    } else {
        match c.num_streams {
            Some(n) => {
                let fns = "NumStreams="@ + decimal_digits(n as nat);
                lemma_num_streams_field_round_trip(n);
                lemma_ns_field_not_flags(n);
                assert(fields =~= seq![f0, f1, fns, fp]);
                assert(fields.skip(2) =~= seq![fns, fp]);
                assert(c.flags =~= Seq::<AddOnionFlag>::empty());
                assert(parse_clauses(seq![fns, fp], c.key_type, c.key_blob) == Some(c));
            },
            None => {
                assert(fields =~= seq![f0, f1, fp]);
                assert(fields.skip(2) =~= seq![fp]);
                assert(c.flags =~= Seq::<AddOnionFlag>::empty());
                assert(parse_clauses(seq![fp], c.key_type, c.key_blob) == Some(c));
            },
        }
    }
}

/// Law: flags serialize in insertion order, and the order is observable on
/// the wire. Two commands alike in every other field whose flag sequences
/// differ — the same flags inserted in another order, in particular —
/// produce different wire lines.
pub proof fn lemma_flag_order_observable(c1: AddOnionV, c2: AddOnionV)
    requires
        serializable(c1),
        c1.key_type == c2.key_type,
        c1.key_blob == c2.key_blob,
        c1.port == c2.port,
        c1.num_streams == c2.num_streams,
        c1.flags != c2.flags,
    ensures
        command_string_spec(c1) != command_string_spec(c2),
{
    if command_string_spec(c1) == command_string_spec(c2) {
        lemma_request_round_trip(c1);
        lemma_request_round_trip(c2);
        assert(c1 == c2);
    }
}

} // verus!
