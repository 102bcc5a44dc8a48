//! Tests of the service-creation command: request serialization, response
//! parsing, and the shared line grammars.

use onion_control::AddOnion;
use onion_control::AddOnionFlag;
use onion_control::KeyBlob;
use onion_control::KeyType;
use onion_control::PrivateKey;
use onion_control::ResponseLine;
use onion_control::TargetAddr;
use onion_control::TorClientError;
use onion_control::response::key_value;

fn line(s: &str) -> ResponseLine {
    ResponseLine::new(s.to_string())
}

fn lines(ss: &[&str]) -> Vec<ResponseLine> {
    ss.iter().map(|s| line(s)).collect()
}

#[test]
fn to_command_string() {
    let command = AddOnion::new(
        KeyType::New,
        KeyBlob::Literal("this-is-a-key".to_string()),
        vec![],
        (9090, None),
        None,
    );
    assert_eq!(
        command.to_command_string().unwrap(),
        "ADD_ONION NEW:this-is-a-key Port=9090"
    );
}

#[test]
fn serialize_every_clause() {
    let addr = TargetAddr { o0: 127, o1: 0, o2: 0, o3: 1, port: 8080 };
    let command = AddOnion::new(
        KeyType::Ed25519V3,
        KeyBlob::Literal("secret-blob".to_string()),
        vec![AddOnionFlag::DiscardPK, AddOnionFlag::Detach],
        (80, Some(addr)),
        Some(5),
    );
    assert_eq!(
        command.to_command_string().unwrap(),
        "ADD_ONION ED25519-V3:secret-blob Flags=DiscardPK,Detach NumStreams=5 Port=80,127.0.0.1:8080"
    );
}

#[test]
fn serialize_generation_sentinel() {
    let command = AddOnion::new(KeyType::New, KeyBlob::Best, vec![], (1, None), None);
    assert_eq!(command.to_command_string().unwrap(), "ADD_ONION NEW:BEST Port=1");
}

#[test]
fn serialize_single_flag() {
    let command = AddOnion::new(
        KeyType::Rsa1024,
        KeyBlob::Literal("k".to_string()),
        vec![AddOnionFlag::NonAnonymous],
        (443, None),
        None,
    );
    assert_eq!(
        command.to_command_string().unwrap(),
        "ADD_ONION RSA1024:k Flags=NonAnonymous Port=443"
    );
}

#[test]
fn flag_insertion_order_is_observable() {
    let one = AddOnion::new(
        KeyType::New,
        KeyBlob::Best,
        vec![AddOnionFlag::Detach, AddOnionFlag::DiscardPK],
        (80, None),
        None,
    );
    let two = AddOnion::new(
        KeyType::New,
        KeyBlob::Best,
        vec![AddOnionFlag::DiscardPK, AddOnionFlag::Detach],
        (80, None),
        None,
    );
    let s1 = one.to_command_string().unwrap();
    let s2 = two.to_command_string().unwrap();
    assert_ne!(s1, s2);
    assert_eq!(s1, "ADD_ONION NEW:BEST Flags=Detach,DiscardPK Port=80");
    assert_eq!(s2, "ADD_ONION NEW:BEST Flags=DiscardPK,Detach Port=80");
}

#[test]
fn flag_tokens() {
    assert_eq!(AddOnionFlag::DiscardPK.to_string(), "DiscardPK");
    assert_eq!(AddOnionFlag::Detach.to_string(), "Detach");
    assert_eq!(AddOnionFlag::BasicAuth.to_string(), "BasicAuth");
    assert_eq!(AddOnionFlag::NonAnonymous.to_string(), "NonAnonymous");
    assert_eq!(
        AddOnionFlag::MaxStreamsCloseCircuit.to_string(),
        "MaxStreamsCloseCircuit"
    );
}

#[test]
fn target_addr_repr() {
    let addr = TargetAddr { o0: 10, o1: 0, o2: 0, o3: 5, port: 443 };
    assert_eq!(addr.to_repr_string(), "10.0.0.5:443");
}

fn any_command() -> AddOnion {
    AddOnion::new(KeyType::New, KeyBlob::Best, vec![], (80, None), None)
}

#[test]
fn parse_service_id_only() {
    let r = any_command()
        .parse_responses(lines(&["ServiceID=abc", "250 OK"]))
        .unwrap();
    assert_eq!(r.service_id, "abc");
    assert!(r.private_key.is_none());
}

#[test]
fn parse_service_id_and_private_key() {
    let r = any_command()
        .parse_responses(lines(&["ServiceID=abc", "PrivateKey=ED25519-V3:deadbeef", "250 OK"]))
        .unwrap();
    assert_eq!(r.service_id, "abc");
    assert_eq!(
        r.private_key,
        Some(PrivateKey::Ed25519V3("deadbeef".to_string()))
    );
}

#[test]
fn parse_rsa_private_key() {
    let r = any_command()
        .parse_responses(lines(&["ServiceID=abc", "PrivateKey=RSA1024:aGVsbG8=", "250 OK"]))
        .unwrap();
    assert_eq!(r.private_key, Some(PrivateKey::Rsa1024("aGVsbG8=".to_string())));
}

#[test]
fn parse_missing_service_id() {
    let e = any_command()
        .parse_responses(lines(&["PrivateKey=ED25519-V3:deadbeef", "250 OK"]))
        .unwrap_err();
    assert_eq!(e, TorClientError::AddOnionNoServiceId);
}

#[test]
fn parse_rejected_command() {
    let e = any_command()
        .parse_responses(lines(&["550 Onion address collision"]))
        .unwrap_err();
    assert_eq!(
        e,
        TorClientError::TorCommandFailed("Onion address collision".to_string())
    );
}

#[test]
fn parse_rejection_without_message() {
    let e = any_command().parse_responses(lines(&["551"])).unwrap_err();
    assert_eq!(e, TorClientError::TorCommandFailed(String::new()));
}

#[test]
fn parse_unrecognized_key_algorithm() {
    let e = any_command()
        .parse_responses(lines(&["ServiceID=abc", "PrivateKey=UNKNOWN:xyz", "250 OK"]))
        .unwrap_err();
    assert_eq!(e, TorClientError::UnrecognizedKeyType("UNKNOWN".to_string()));
}

#[test]
fn parse_empty_response() {
    let e = any_command().parse_responses(Vec::new()).unwrap_err();
    assert_eq!(e, TorClientError::UnexpectedEof);
}

#[test]
fn parse_private_key_without_colon() {
    let e = any_command()
        .parse_responses(lines(&["ServiceID=abc", "PrivateKey=nocolon", "250 OK"]))
        .unwrap_err();
    assert_eq!(e, TorClientError::PrivateKeyMalformed);
}

#[test]
fn parse_private_key_empty_tag() {
    let e = any_command()
        .parse_responses(lines(&["ServiceID=abc", "PrivateKey=:payload", "250 OK"]))
        .unwrap_err();
    assert_eq!(e, TorClientError::PrivateKeyMalformed);
}

#[test]
fn parse_private_key_empty_payload() {
    let e = any_command()
        .parse_responses(lines(&["ServiceID=abc", "PrivateKey=ED25519-V3:", "250 OK"]))
        .unwrap_err();
    assert_eq!(e, TorClientError::PrivateKeyMalformed);
}

#[test]
fn parse_private_key_keeps_extra_colons() {
    let r = any_command()
        .parse_responses(lines(&["ServiceID=abc", "PrivateKey=ED25519-V3:a:b", "250 OK"]))
        .unwrap();
    assert_eq!(r.private_key, Some(PrivateKey::Ed25519V3("a:b".to_string())));
}

#[test]
fn parse_duplicate_key_takes_last() {
    let r = any_command()
        .parse_responses(lines(&["ServiceID=first", "ServiceID=second", "250 OK"]))
        .unwrap();
    assert_eq!(r.service_id, "second");
}

#[test]
fn parse_ignores_unknown_keys() {
    let r = any_command()
        .parse_responses(lines(&["Whatever=zzz", "ServiceID=abc", "Bare", "250 OK"]))
        .unwrap();
    assert_eq!(r.service_id, "abc");
    assert!(r.private_key.is_none());
}

#[test]
fn key_value_splits_at_first_equals() {
    assert_eq!(key_value("a=b=c"), ("a".to_string(), "b=c".to_string()));
    assert_eq!(key_value("Key=Value"), ("Key".to_string(), "Value".to_string()));
    assert_eq!(key_value("bare"), ("bare".to_string(), String::new()));
    assert_eq!(key_value(""), (String::new(), String::new()));
}

#[test]
fn status_line_err() {
    assert_eq!(line("250 OK").err(), None);
    assert_eq!(line("650 async event").err(), Some("async event".to_string()));
    assert_eq!(line("550").err(), Some(String::new()));
    assert_eq!(line("ServiceID=abc").err(), None);
    assert_eq!(line("25x bad code").err(), None);
}

#[test]
fn error_descriptions() {
    assert_eq!(
        TorClientError::UnexpectedEof.describe(),
        "unexpected end of input"
    );
    assert_eq!(
        TorClientError::TorCommandFailed("bad".to_string()).describe(),
        "command failed: bad"
    );
    assert_eq!(
        TorClientError::UnrecognizedKeyType("X".to_string()).describe(),
        "unrecognized private key type: X"
    );
}

fn through_trait<C: onion_control::TorCommand>(
    c: &C,
    responses: Vec<ResponseLine>,
) -> Result<C::Output, C::Error> {
    c.parse_responses(responses)
}

#[test]
fn trait_dispatch() {
    let command = any_command();
    let r = through_trait(&command, lines(&["ServiceID=abc", "250 OK"])).unwrap();
    assert_eq!(r.service_id, "abc");
    let s = onion_control::TorCommand::to_command_string(&command).unwrap();
    assert_eq!(s, "ADD_ONION NEW:BEST Port=80");
}
