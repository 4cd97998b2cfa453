use pumpfun_launches::error::{DecodeError, Field};
use pumpfun_launches::wire::{decode_record, read_u32, CreateRecord};

const PREFIX: [u8; 8] = [0x1b, 0x72, 0xa9, 0x4d, 0xde, 0xeb, 0x63, 0x76];

fn key(seed: u8) -> [u8; 32] {
    let mut bytes = [0u8; 32];
    for (i, b) in bytes.iter_mut().enumerate() {
        *b = seed.wrapping_add(i as u8).wrapping_mul(7);
    }
    bytes
}

fn put_text(out: &mut Vec<u8>, text: &str) {
    out.extend_from_slice(&(text.len() as u32).to_le_bytes());
    out.extend_from_slice(text.as_bytes());
}

fn body(name: &str, symbol: &str, uri: &str) -> Vec<u8> {
    let mut out = Vec::new();
    put_text(&mut out, name);
    put_text(&mut out, symbol);
    put_text(&mut out, uri);
    out.extend_from_slice(&key(1));
    out.extend_from_slice(&key(2));
    out.extend_from_slice(&key(3));
    out
}

fn buffer(name: &str, symbol: &str, uri: &str) -> Vec<u8> {
    let mut out = PREFIX.to_vec();
    out.extend_from_slice(&body(name, symbol, uri));
    out
}

fn record(name: &str, symbol: &str, uri: &str) -> CreateRecord {
    CreateRecord {
        name: name.to_string(),
        symbol: symbol.to_string(),
        uri: uri.to_string(),
        mint: key(1),
        bonding_curve: key(2),
        user: key(3),
    }
}

fn truncated(field: Field) -> Result<CreateRecord, DecodeError> {
    Err(DecodeError::Truncated { field })
}

#[test]
fn read_u32_is_little_endian() {
    assert_eq!(read_u32(&[0x78, 0x56, 0x34, 0x12]), 0x1234_5678);
    assert_eq!(read_u32(&[1, 0, 0, 0]), 1);
    assert_eq!(read_u32(&[0, 1, 0, 0]), 256);
    assert_eq!(read_u32(&[0, 0, 1, 0]), 65_536);
    assert_eq!(read_u32(&[0, 0, 0, 1]), 16_777_216);
    assert_eq!(read_u32(&[0xff, 0xff, 0xff, 0xff]), u32::MAX);
}

#[test]
fn read_u32_reads_only_the_first_four_bytes() {
    assert_eq!(read_u32(&[3, 0, 0, 0, 9, 9, 9]), 3);
}

#[test]
fn decode_reproduces_the_six_fields() {
    let got = decode_record(&buffer("Foo", "FOO", "http://x"));
    assert_eq!(got, Ok(record("Foo", "FOO", "http://x")));
}

#[test]
fn decode_keeps_multibyte_text() {
    let name = "Grüße 🚀 дом";
    let symbol = "π€";
    let uri = "https://例え.jp/メタ";
    assert_eq!(decode_record(&buffer(name, symbol, uri)), Ok(record(name, symbol, uri)));
}

#[test]
fn decode_accepts_empty_texts() {
    assert_eq!(decode_record(&buffer("", "", "")), Ok(record("", "", "")));
}

#[test]
fn decode_accepts_large_texts() {
    let name = "n".repeat(70_000);
    let uri = "é".repeat(150_000);
    assert_eq!(decode_record(&buffer(&name, "S", &uri)), Ok(record(&name, "S", &uri)));
}

#[test]
fn decode_ignores_bytes_behind_the_keys() {
    let mut bytes = buffer("Foo", "FOO", "http://x");
    bytes.extend_from_slice(&[0xaa; 17]);
    assert_eq!(decode_record(&bytes), Ok(record("Foo", "FOO", "http://x")));
}

#[test]
fn decode_skips_the_prefix_whatever_it_holds() {
    let mut bytes = vec![0xff; 8];
    bytes.extend_from_slice(&body("a", "b", "c"));
    assert_eq!(decode_record(&bytes), Ok(record("a", "b", "c")));
}

#[test]
fn decode_without_prefix_reads_the_wrong_bytes() {
    // Without a discriminant the first eight bytes of the record are skipped.
    let bytes = body("Foo", "FOO", "http://x");
    assert_ne!(decode_record(&bytes), Ok(record("Foo", "FOO", "http://x")));
}

#[test]
fn truncation_at_each_boundary_names_the_field() {
    let name = "Name";
    let symbol = "SYM";
    let uri = "http://uri";
    let full = buffer(name, symbol, uri);
    let name_len_end = 8 + 4;
    let name_end = name_len_end + name.len();
    let symbol_len_end = name_end + 4;
    let symbol_end = symbol_len_end + symbol.len();
    let uri_len_end = symbol_end + 4;
    let uri_end = uri_len_end + uri.len();
    let keys_end = uri_end + 96;
    assert_eq!(keys_end, full.len());
    assert_eq!(decode_record(&full[..name_len_end - 1]), truncated(Field::Name));
    assert_eq!(decode_record(&full[..name_end - 1]), truncated(Field::Name));
    assert_eq!(decode_record(&full[..symbol_len_end - 1]), truncated(Field::Symbol));
    assert_eq!(decode_record(&full[..symbol_end - 1]), truncated(Field::Symbol));
    assert_eq!(decode_record(&full[..uri_len_end - 1]), truncated(Field::Uri));
    assert_eq!(decode_record(&full[..uri_end - 1]), truncated(Field::Uri));
    assert_eq!(decode_record(&full[..keys_end - 1]), truncated(Field::Keys));
    assert_eq!(decode_record(&full[..keys_end]), Ok(record(name, symbol, uri)));
}

#[test]
fn every_cut_behind_the_prefix_is_a_truncation() {
    let name = "Name";
    let symbol = "SYM";
    let uri = "http://uri";
    let full = buffer(name, symbol, uri);
    let name_end = 8 + 4 + name.len();
    let symbol_end = name_end + 4 + symbol.len();
    let uri_end = symbol_end + 4 + uri.len();
    for k in 9..full.len() {
        let field = if k < name_end {
            Field::Name
        } else if k < symbol_end {
            Field::Symbol
        } else if k < uri_end {
            Field::Uri
        } else {
            Field::Keys
        };
        assert_eq!(decode_record(&full[..k]), truncated(field), "cut at {}", k);
    }
}

#[test]
fn truncation_where_a_field_ends_names_the_next_field() {
    let full = buffer("Name", "SYM", "http://uri");
    assert_eq!(decode_record(&full[..8 + 4 + 4]), truncated(Field::Symbol));
    assert_eq!(decode_record(&full[..8 + 4 + 4 + 4 + 3]), truncated(Field::Uri));
    assert_eq!(decode_record(&full[..8 + 4 + 4 + 4 + 3 + 4 + 10]), truncated(Field::Keys));
}

#[test]
fn oversized_length_is_a_truncation() {
    let mut bytes = PREFIX.to_vec();
    bytes.extend_from_slice(&u32::MAX.to_le_bytes());
    bytes.extend_from_slice(&[b'x'; 200]);
    assert_eq!(decode_record(&bytes), truncated(Field::Name));

    let mut bytes = PREFIX.to_vec();
    put_text(&mut bytes, "ok");
    bytes.extend_from_slice(&0x8000_0000u32.to_le_bytes());
    bytes.extend_from_slice(&[b'x'; 200]);
    assert_eq!(decode_record(&bytes), truncated(Field::Symbol));
}

#[test]
fn length_one_over_the_rest_is_a_truncation() {
    let mut bytes = PREFIX.to_vec();
    bytes.extend_from_slice(&5u32.to_le_bytes());
    bytes.extend_from_slice(b"abcd");
    assert_eq!(decode_record(&bytes), truncated(Field::Name));
}

#[test]
fn invalid_utf8_names_the_field() {
    let good = buffer("ab", "cd", "ef");
    let mut bad_name = good.clone();
    bad_name[8 + 4] = 0xff;
    assert_eq!(decode_record(&bad_name), Err(DecodeError::InvalidText { field: Field::Name }));
    let mut bad_symbol = good.clone();
    bad_symbol[8 + 4 + 2 + 4 + 1] = 0xc0;
    assert_eq!(decode_record(&bad_symbol), Err(DecodeError::InvalidText { field: Field::Symbol }));
    let mut bad_uri = good.clone();
    bad_uri[8 + 4 + 2 + 4 + 2 + 4] = 0x80;
    assert_eq!(decode_record(&bad_uri), Err(DecodeError::InvalidText { field: Field::Uri }));
}

#[test]
fn text_is_checked_before_what_follows_is_read() {
    // The name is not UTF-8 and the buffer ends right behind it.
    let mut bytes = PREFIX.to_vec();
    bytes.extend_from_slice(&2u32.to_le_bytes());
    bytes.extend_from_slice(&[0xed, 0xa0]);
    assert_eq!(decode_record(&bytes), Err(DecodeError::InvalidText { field: Field::Name }));
}

#[test]
fn surrogates_and_overlong_forms_are_not_text() {
    for raw in [vec![0xed, 0xa0, 0x80], vec![0xc0, 0x80], vec![0xf4, 0x90, 0x80, 0x80]] {
        let mut bytes = PREFIX.to_vec();
        bytes.extend_from_slice(&(raw.len() as u32).to_le_bytes());
        bytes.extend_from_slice(&raw);
        bytes.extend_from_slice(&[0u8; 120]);
        assert_eq!(decode_record(&bytes), Err(DecodeError::InvalidText { field: Field::Name }));
    }
}

#[test]
fn empty_buffer_is_a_truncated_name() {
    assert_eq!(decode_record(&[]), truncated(Field::Name));
}

#[test]
fn short_buffer_is_read_from_its_front() {
    // Five bytes: a name of one byte that is not UTF-8. Had the buffer been
    // refused for its length, or eight bytes been skipped, the name would
    // not have been looked at.
    assert_eq!(
        decode_record(&[1, 0, 0, 0, 0xff]),
        Err(DecodeError::InvalidText { field: Field::Name })
    );
    assert_eq!(decode_record(&[1, 0, 0, 0, b'a']), truncated(Field::Symbol));
    assert_eq!(decode_record(&[2, 0, 0, 0, b'a']), truncated(Field::Name));
    assert_eq!(decode_record(&[0, 0, 0]), truncated(Field::Name));
}

#[test]
fn buffer_of_eight_bytes_is_read_from_its_front() {
    assert_eq!(decode_record(&[0; 8]), truncated(Field::Uri));
    assert_eq!(decode_record(&[0, 0, 0, 0, 1, 0, 0, 0]), truncated(Field::Symbol));
}

#[test]
fn buffer_of_nine_bytes_is_read_behind_the_prefix() {
    assert_eq!(decode_record(&[0; 9]), truncated(Field::Name));
}

#[test]
fn field_labels() {
    assert_eq!(Field::Name.label(), "name");
    assert_eq!(Field::Symbol.label(), "symbol");
    assert_eq!(Field::Uri.label(), "uri");
    assert_eq!(Field::Keys.label(), "keys");
    assert_eq!(Field::Mint.label(), "mint");
    assert_eq!(Field::BondingCurve.label(), "bonding_curve");
    assert_eq!(Field::User.label(), "user");
}

#[test]
fn errors_in_words() {
    assert_eq!(DecodeError::InvalidEncoding.describe(), "Failed to decode base64");
    assert_eq!(
        DecodeError::Truncated { field: Field::Keys }.describe(),
        "Data too short for keys"
    );
    assert_eq!(
        DecodeError::InvalidText { field: Field::Symbol }.describe(),
        "Invalid UTF-8 in symbol"
    );
    assert_eq!(
        DecodeError::NonCanonicalKey { field: Field::Mint }.describe(),
        "Key does not read back from base58: mint"
    );
}
