use lrgp::constants::{FIELD_CUSTOM_META, FIELD_CUSTOM_TYPE, KEY_APP, KEY_COMMAND};
use lrgp::envelope::{pack_envelope, pack_to_bytes};
use lrgp::errors::LrgpError;
use lrgp::fields::FieldMap;
use lrgp::transport::{extract_envelope, fields_bytes_to_rmpv, is_lrgp_message, pack_into_fields};
use lrgp::value::{value_as_str, MsgValue};

/// The MessagePack encoding of a short string.
fn encoded_str(s: &str) -> Vec<u8> {
    assert!(s.len() < 32);
    let mut out = vec![0xa0 | s.len() as u8];
    out.extend_from_slice(s.as_bytes());
    out
}

#[test]
fn test_pack_and_extract_roundtrip() {
    let env = pack_envelope("ttt", 1, "challenge", "abcdef0123456789", None);
    let raw_fields = pack_into_fields(&env).unwrap();
    let recovered = extract_envelope(&raw_fields).unwrap().unwrap();

    assert_eq!(value_as_str(recovered.get(KEY_APP).unwrap()).unwrap(), "ttt.1");
    assert_eq!(value_as_str(recovered.get(KEY_COMMAND).unwrap()).unwrap(), "challenge");
}

#[test]
fn test_is_lrgp_message_true() {
    let env = pack_envelope("ttt", 1, "move", "abc", None);
    let raw_fields = pack_into_fields(&env).unwrap();
    assert!(is_lrgp_message(&raw_fields));
}

#[test]
fn test_is_lrgp_message_false() {
    let fields: FieldMap<Vec<u8>> = FieldMap::new();
    assert!(!is_lrgp_message(&fields));
}

#[test]
fn test_is_lrgp_message_legacy_rlap() {
    let type_buf = encoded_str("rlap.v1");
    let mut fields: FieldMap<Vec<u8>> = FieldMap::new();
    fields.insert(FIELD_CUSTOM_TYPE, type_buf);
    assert!(is_lrgp_message(&fields));
}

#[test]
fn test_is_lrgp_message_legacy_ratspeak() {
    let type_buf = encoded_str("ratspeak.game");
    let mut fields: FieldMap<Vec<u8>> = FieldMap::new();
    fields.insert(FIELD_CUSTOM_TYPE, type_buf);
    assert!(is_lrgp_message(&fields));
}

#[test]
fn test_extract_envelope_not_lrgp() {
    let fields: FieldMap<Vec<u8>> = FieldMap::new();
    assert!(extract_envelope(&fields).unwrap().is_none());
}

#[test]
fn test_extract_envelope_legacy_rlap() {
    let type_buf = encoded_str("rlap.v1");
    let env = pack_envelope("ttt", 1, "challenge", "abc", None);
    let env_buf = pack_to_bytes(&env).unwrap();

    let mut fields: FieldMap<Vec<u8>> = FieldMap::new();
    fields.insert(FIELD_CUSTOM_TYPE, type_buf);
    fields.insert(FIELD_CUSTOM_META, env_buf);

    let result = extract_envelope(&fields).unwrap().unwrap();
    assert_eq!(value_as_str(result.get(KEY_COMMAND).unwrap()).unwrap(), "challenge");
}

#[test]
fn test_fields_bytes_to_rmpv() {
    let env = pack_envelope("ttt", 1, "move", "abc", None);
    let raw = pack_into_fields(&env).unwrap();
    let rmpv_fields = fields_bytes_to_rmpv(&raw).unwrap();
    assert!(rmpv_fields.contains_key(FIELD_CUSTOM_TYPE));
    assert!(rmpv_fields.contains_key(FIELD_CUSTOM_META));
}

fn invalid(r: Result<Option<lrgp::envelope::Envelope>, LrgpError>) -> String {
    match r {
        Err(LrgpError::InvalidEnvelope(m)) => m,
        _ => panic!("expected an invalid envelope"),
    }
}

#[test]
fn test_extract_envelope_errors() {
    let mut fields: FieldMap<Vec<u8>> = FieldMap::new();
    fields.insert(FIELD_CUSTOM_TYPE, vec![0xa5, 0x61]);
    assert!(invalid(extract_envelope(&fields)).starts_with("type field decode error: "));
    assert!(!is_lrgp_message(&fields));

    fields.insert(FIELD_CUSTOM_TYPE, encoded_str("other"));
    assert!(extract_envelope(&fields).unwrap().is_none());

    fields.insert(FIELD_CUSTOM_TYPE, encoded_str("lrgp.v1"));
    assert_eq!(invalid(extract_envelope(&fields)), "FIELD_CUSTOM_META (0xFD) missing");

    fields.insert(FIELD_CUSTOM_META, vec![0xa5, 0x61]);
    assert!(invalid(extract_envelope(&fields)).starts_with("meta field decode error: "));

    fields.insert(FIELD_CUSTOM_META, encoded_str("x"));
    assert_eq!(invalid(extract_envelope(&fields)), "meta field is not a map");

    // {"a": "ttt.1", "c": "move"}: no session key.
    let mut partial = vec![0x82];
    partial.extend(encoded_str("a"));
    partial.extend(encoded_str("ttt.1"));
    partial.extend(encoded_str("c"));
    partial.extend(encoded_str("move"));
    fields.insert(FIELD_CUSTOM_META, partial);
    assert_eq!(invalid(extract_envelope(&fields)), "Missing required key: s");
}

#[test]
fn test_fields_bytes_to_rmpv_error() {
    let mut fields: FieldMap<Vec<u8>> = FieldMap::new();
    fields.insert(FIELD_CUSTOM_TYPE, encoded_str("lrgp.v1"));
    fields.insert(0x05, vec![0xa5, 0x61]);
    match fields_bytes_to_rmpv(&fields) {
        Err(LrgpError::InvalidEnvelope(m)) => assert!(m.starts_with("field 0x5 decode error: ")),
        _ => panic!("expected a decode error"),
    }
    let mut fields: FieldMap<Vec<u8>> = FieldMap::new();
    fields.insert(FIELD_CUSTOM_META, vec![0xa5, 0x61]);
    match fields_bytes_to_rmpv(&fields) {
        Err(LrgpError::InvalidEnvelope(m)) => assert!(m.starts_with("field 0xfd decode error: ")),
        _ => panic!("expected a decode error"),
    }
    let mut fields: FieldMap<Vec<u8>> = FieldMap::new();
    fields.insert(FIELD_CUSTOM_TYPE, encoded_str("lrgp.v1"));
    let decoded = fields_bytes_to_rmpv(&fields).unwrap();
    match decoded.get(FIELD_CUSTOM_TYPE) {
        Some(MsgValue::String(s)) => assert_eq!(s, "lrgp.v1"),
        _ => panic!("expected the marker"),
    }
}

#[test]
fn test_pack_into_fields_bytes() {
    let env = pack_envelope("ttt", 1, "move", "abc", None);
    let raw = pack_into_fields(&env).unwrap();
    assert_eq!(raw.get(FIELD_CUSTOM_TYPE), Some(&encoded_str("lrgp.v1")));
    assert_eq!(raw.get(FIELD_CUSTOM_META), Some(&pack_to_bytes(&env).unwrap()));
    assert_eq!(raw.len(), 2);
}
