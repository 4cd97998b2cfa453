use base64::Engine;
use pumpfun_launches::error::{DecodeError, MissingMetadataError};
use pumpfun_launches::event::CreateTokenInfo;
use pumpfun_launches::transaction::{
    decode_captures, parse_instruction, TransactionMeta, TransactionPretty,
};
use pumpfun_launches::correlator::{Capture, InstructionKind};

const INVOKE: &str = "Program 6EF8rrecthR5Dkzon8Nwu78hRvfCKubJ14M5uBEwF6P invoke";
const SUCCESS: &str = "Program 6EF8rrecthR5Dkzon8Nwu78hRvfCKubJ14M5uBEwF6P success";
const CREATE: &str = "Program log: Instruction: Create";
const BUY: &str = "Program log: Instruction: Buy";

fn mint() -> [u8; 32] {
    let mut bytes = [0u8; 32];
    for (i, b) in bytes.iter_mut().enumerate() {
        *b = (i as u8) * 3 + 1;
    }
    bytes
}

fn curve() -> [u8; 32] {
    [7u8; 32]
}

fn creator() -> [u8; 32] {
    let mut bytes = [0u8; 32];
    bytes[0] = 0;
    bytes[1] = 0;
    bytes[2] = 200;
    bytes[31] = 9;
    bytes
}

fn put_text(out: &mut Vec<u8>, text: &str) {
    out.extend_from_slice(&(text.len() as u32).to_le_bytes());
    out.extend_from_slice(text.as_bytes());
}

fn payload(name: &str, symbol: &str, uri: &str) -> String {
    let mut out = vec![27, 114, 169, 77, 222, 235, 99, 118];
    put_text(&mut out, name);
    put_text(&mut out, symbol);
    put_text(&mut out, uri);
    out.extend_from_slice(&mint());
    out.extend_from_slice(&curve());
    out.extend_from_slice(&creator());
    base64::engine::general_purpose::STANDARD.encode(out)
}

fn data_line(payload: &str) -> String {
    format!("Program data: {}", payload)
}

fn logs(instruction: &str, payload: &str) -> Vec<String> {
    vec![INVOKE.to_string(), instruction.to_string(), data_line(payload), SUCCESS.to_string()]
}

fn transaction(meta: Option<TransactionMeta>) -> TransactionPretty {
    TransactionPretty { slot: 312_000_001, signature: [5u8; 64], is_vote: false, meta }
}

fn check_foo(info: &CreateTokenInfo) {
    assert_eq!(info.name, "Foo");
    assert_eq!(info.symbol, "FOO");
    assert_eq!(info.uri, "http://x");
    assert_eq!(info.mint.text, bs58::encode(mint()).into_string());
    assert_eq!(info.bonding_curve.text, bs58::encode(curve()).into_string());
    assert_eq!(info.user.text, bs58::encode(creator()).into_string());
    assert_eq!(info.mint.bytes, mint());
    assert_eq!(info.bonding_curve.bytes, curve());
    assert_eq!(info.user.bytes, creator());
    assert_eq!(info.created_at.len(), 19);
}

#[test]
fn creation_is_extracted_end_to_end() {
    let events = parse_instruction(&logs(CREATE, &payload("Foo", "FOO", "http://x"))).unwrap();
    assert_eq!(events.len(), 1);
    check_foo(&events[0]);
}

#[test]
fn buy_with_a_data_line_gives_no_event() {
    let events = parse_instruction(&logs(BUY, &payload("Foo", "FOO", "http://x"))).unwrap();
    assert_eq!(events, vec![]);
}

#[test]
fn no_logs_no_events() {
    assert_eq!(parse_instruction(&[]), Ok(vec![]));
}

#[test]
fn payload_that_cannot_be_decoded_is_passed_over() {
    let good = payload("Foo", "FOO", "http://x");
    let mut lines = logs(CREATE, "not base64!");
    lines.extend(logs(CREATE, &good[..good.len() - 8]));
    lines.extend(logs(CREATE, &good));
    lines.extend(logs(CREATE, ""));
    let events = parse_instruction(&lines).unwrap();
    assert_eq!(events.len(), 1);
    check_foo(&events[0]);
}

#[test]
fn events_come_in_the_order_of_the_logs() {
    let mut lines = logs(CREATE, &payload("First", "ONE", "http://1"));
    lines.extend(logs(BUY, &payload("Bought", "BUY", "http://b")));
    lines.extend(logs(CREATE, &payload("Second", "TWO", "http://2")));
    let events = parse_instruction(&lines).unwrap();
    let names: Vec<&str> = events.iter().map(|e| e.name.as_str()).collect();
    assert_eq!(names, vec!["First", "Second"]);
}

#[test]
fn longest_payload_is_the_one_decoded() {
    let short = payload("S", "S", "s");
    let long = payload("Longer", "LONG", "http://longer");
    let lines = vec![
        INVOKE.to_string(),
        CREATE.to_string(),
        data_line(&short),
        data_line(&long),
        SUCCESS.to_string(),
    ];
    let events = parse_instruction(&lines).unwrap();
    assert_eq!(events.len(), 1);
    assert_eq!(events[0].name, "Longer");
}

#[test]
fn truncated_logs_give_no_event() {
    let mut lines = logs(CREATE, &payload("Foo", "FOO", "http://x"));
    lines.pop();
    assert_eq!(parse_instruction(&lines), Ok(vec![]));
}

#[test]
fn captures_of_trades_are_not_decoded() {
    let good = payload("Foo", "FOO", "http://x");
    let found = vec![
        Capture { kind: InstructionKind::Trade, payload: good.clone() },
        Capture { kind: InstructionKind::Create, payload: good.clone() },
        Capture { kind: InstructionKind::Create, payload: "????".to_string() },
    ];
    let events = decode_captures(&found);
    assert_eq!(events.len(), 1);
    check_foo(&events[0]);
}

#[test]
fn transaction_without_metadata_is_refused() {
    assert_eq!(transaction(None).launches(), Err(MissingMetadataError));
}

#[test]
fn failed_transaction_reports_nothing() {
    let meta = TransactionMeta {
        failed: true,
        log_messages: Some(logs(CREATE, &payload("Foo", "FOO", "http://x"))),
    };
    assert_eq!(transaction(Some(meta)).launches(), Ok(vec![]));
}

#[test]
fn transaction_without_logs_reports_nothing() {
    let meta = TransactionMeta { failed: false, log_messages: None };
    assert_eq!(transaction(Some(meta)).launches(), Ok(vec![]));
    let meta = TransactionMeta { failed: false, log_messages: Some(vec![]) };
    assert_eq!(transaction(Some(meta)).launches(), Ok(vec![]));
}

#[test]
fn successful_transaction_reports_its_creations() {
    let meta = TransactionMeta {
        failed: false,
        log_messages: Some(logs(CREATE, &payload("Foo", "FOO", "http://x"))),
    };
    let events = transaction(Some(meta)).launches().unwrap();
    assert_eq!(events.len(), 1);
    check_foo(&events[0]);
}

#[test]
fn success_is_read_from_the_metadata() {
    assert!(!transaction(None).succeeded());
    let failed = TransactionMeta { failed: true, log_messages: None };
    assert!(!transaction(Some(failed)).succeeded());
    let fine = TransactionMeta { failed: false, log_messages: None };
    assert!(transaction(Some(fine)).succeeded());
}

#[test]
fn parse_instruction_never_fails() {
    let lines = logs(CREATE, "AQAAAP8=");
    let outcome: Result<Vec<CreateTokenInfo>, DecodeError> = parse_instruction(&lines);
    assert_eq!(outcome, Ok(vec![]));
}
