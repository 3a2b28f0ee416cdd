use lrgp::constants::{ENVELOPE_MAX_PACKED, FIELD_CUSTOM_META, FIELD_CUSTOM_TYPE, KEY_APP, KEY_COMMAND, KEY_SESSION, PROTOCOL_TYPE};
use lrgp::envelope::{
    map_from_value, pack_envelope, pack_lxmf_fields, pack_to_bytes, parse_app_version, unpack_envelope,
    unpack_from_bytes, validate_envelope_size, value_from_map,
};
use lrgp::errors::LrgpError;
use lrgp::fields::FieldMap;
use lrgp::value::{value_as_str, value_as_u64, MsgValue, StrMap};

/// MessagePack fixstr (strings shorter than 32 bytes).
fn fixstr(out: &mut Vec<u8>, s: &str) {
    assert!(s.len() < 32);
    out.push(0xa0 | s.len() as u8);
    out.extend_from_slice(s.as_bytes());
}

/// A MessagePack envelope written byte by byte: a fixmap of the four keys,
/// with the payload as a fixmap of string keys.
fn envelope_bytes(app: &str, command: &str, session: &str, payload: &[(&str, Vec<u8>)]) -> Vec<u8> {
    let mut out = vec![0x84];
    fixstr(&mut out, "a");
    fixstr(&mut out, app);
    fixstr(&mut out, "c");
    fixstr(&mut out, command);
    fixstr(&mut out, "s");
    fixstr(&mut out, session);
    fixstr(&mut out, "p");
    out.push(0x80 | payload.len() as u8);
    for (k, v) in payload {
        fixstr(&mut out, k);
        out.extend_from_slice(v);
    }
    out
}

fn str_bytes(s: &str) -> Vec<u8> {
    let mut out = Vec::new();
    fixstr(&mut out, s);
    out
}

#[test]
fn test_pack_unpack_roundtrip() {
    let mut payload = StrMap::new();
    payload.insert("i".to_string(), MsgValue::PosInt(4));
    payload.insert("b".to_string(), MsgValue::String("____X____".to_string()));

    let env = pack_envelope("ttt", 1, "move", "a1b2c3d4e5f6g7h8", Some(payload));

    let bytes = pack_to_bytes(&env).unwrap();
    let recovered = unpack_from_bytes(&bytes).unwrap();

    assert_eq!(value_as_str(recovered.get(KEY_APP).unwrap()).unwrap(), "ttt.1");
    assert_eq!(value_as_str(recovered.get(KEY_COMMAND).unwrap()).unwrap(), "move");
    assert_eq!(value_as_str(recovered.get(KEY_SESSION).unwrap()).unwrap(), "a1b2c3d4e5f6g7h8");
}

#[test]
fn test_validate_envelope_size_ok() {
    let env = pack_envelope("ttt", 1, "challenge", "a1b2c3d4e5f6g7h8", None);
    let size = validate_envelope_size(&env).unwrap();
    assert!(size <= ENVELOPE_MAX_PACKED);
}

#[test]
fn test_validate_envelope_size_too_large() {
    let mut payload = StrMap::new();
    let big_string = "x".repeat(300);
    payload.insert("data".to_string(), MsgValue::String(big_string));

    let env = pack_envelope("ttt", 1, "move", "a1b2c3d4e5f6g7h8", Some(payload));
    assert!(matches!(validate_envelope_size(&env), Err(LrgpError::EnvelopeTooLarge(_, _))));
}

#[test]
fn test_parse_app_version() {
    let (app, ver) = parse_app_version("ttt.1").unwrap();
    assert_eq!(app, "ttt");
    assert_eq!(ver, 1);

    let (app, ver) = parse_app_version("chess.game.2").unwrap();
    assert_eq!(app, "chess.game");
    assert_eq!(ver, 2);
}

#[test]
fn test_unpack_envelope_not_lrgp() {
    let fields: FieldMap<MsgValue> = FieldMap::new();
    assert!(unpack_envelope(&fields).unwrap().is_none());
}

#[test]
fn test_unpack_envelope_valid() {
    let env = pack_envelope("ttt", 1, "challenge", "abc123", None);
    let lxmf_fields = pack_lxmf_fields(&env);
    let result = unpack_envelope(&lxmf_fields).unwrap().unwrap();
    assert_eq!(value_as_str(result.get(KEY_COMMAND).unwrap()).unwrap(), "challenge");
}

#[test]
fn test_unpack_envelope_legacy_rlap() {
    let mut lxmf: FieldMap<MsgValue> = FieldMap::new();
    lxmf.insert(FIELD_CUSTOM_TYPE, MsgValue::String("rlap.v1".to_string()));
    let env = pack_envelope("ttt", 1, "challenge", "abc123", None);
    lxmf.insert(FIELD_CUSTOM_META, value_from_map(env));
    let result = unpack_envelope(&lxmf).unwrap();
    assert!(result.is_some());
}

#[test]
fn test_unpack_envelope_missing_key() {
    let mut lxmf: FieldMap<MsgValue> = FieldMap::new();
    lxmf.insert(FIELD_CUSTOM_TYPE, MsgValue::String(PROTOCOL_TYPE.to_string()));
    let bad_map = MsgValue::Dict(vec![(MsgValue::String("a".to_string()), MsgValue::String("ttt.1".to_string()))]);
    lxmf.insert(FIELD_CUSTOM_META, bad_map);
    assert!(unpack_envelope(&lxmf).is_err());
}

#[test]
fn test_vector_challenge() {
    let data = envelope_bytes("ttt.1", "challenge", "a1b2c3d4e5f6g7h8", &[]);
    let env = unpack_from_bytes(&data).unwrap();
    assert_eq!(value_as_str(env.get("a").unwrap()).unwrap(), "ttt.1");
    assert_eq!(value_as_str(env.get("c").unwrap()).unwrap(), "challenge");
    assert_eq!(value_as_str(env.get("s").unwrap()).unwrap(), "a1b2c3d4e5f6g7h8");
}

#[test]
fn test_vector_move() {
    let data = envelope_bytes(
        "ttt.1",
        "move",
        "a1b2c3d4e5f6g7h8",
        &[("i", vec![0x04]), ("b", str_bytes("____X____")), ("n", vec![0x01]), ("t", str_bytes("abcdef0123456789"))],
    );
    let env = unpack_from_bytes(&data).unwrap();
    assert_eq!(value_as_str(env.get("c").unwrap()).unwrap(), "move");
    let payload = map_from_value(env.get("p").unwrap()).unwrap();
    assert_eq!(value_as_u64(payload.get("i").unwrap()).unwrap(), 4);
    assert_eq!(value_as_str(payload.get("b").unwrap()).unwrap(), "____X____");
    assert_eq!(value_as_u64(payload.get("n").unwrap()).unwrap(), 1);
}

#[test]
fn test_vector_move_win() {
    let data = envelope_bytes(
        "ttt.1",
        "move",
        "a1b2c3d4e5f6g7h8",
        &[
            ("i", vec![0x02]),
            ("b", str_bytes("XXX_OO___")),
            ("n", vec![0x05]),
            ("t", str_bytes("")),
            ("x", str_bytes("win")),
            ("w", str_bytes("abcdef0123456789")),
        ],
    );
    let env = unpack_from_bytes(&data).unwrap();
    assert_eq!(value_as_str(env.get("c").unwrap()).unwrap(), "move");
    let payload = map_from_value(env.get("p").unwrap()).unwrap();
    assert_eq!(value_as_u64(payload.get("i").unwrap()).unwrap(), 2);
    assert_eq!(value_as_str(payload.get("b").unwrap()).unwrap(), "XXX_OO___");
    assert_eq!(value_as_u64(payload.get("n").unwrap()).unwrap(), 5);
    assert_eq!(value_as_str(payload.get("x").unwrap()).unwrap(), "win");
    assert_eq!(value_as_str(payload.get("w").unwrap()).unwrap(), "abcdef0123456789");
}

#[test]
fn test_packed_bytes_match_hand_encoding() {
    let env = pack_envelope("ttt", 1, "challenge", "a1b2c3d4e5f6g7h8", None);
    let bytes = pack_to_bytes(&env).unwrap();
    assert_eq!(bytes, envelope_bytes("ttt.1", "challenge", "a1b2c3d4e5f6g7h8", &[]));
    assert_eq!(validate_envelope_size(&env).unwrap(), bytes.len());
}

#[test]
fn test_unpack_from_bytes_errors() {
    match unpack_from_bytes(&[0xa5, 0x61]) {
        Err(LrgpError::InvalidEnvelope(m)) => assert!(m.starts_with("msgpack decode error: ")),
        _ => panic!("expected a decode error"),
    }
    match unpack_from_bytes(&str_bytes("hello")) {
        Err(LrgpError::InvalidEnvelope(m)) => assert_eq!(m, "top-level value is not a map"),
        _ => panic!("expected a map error"),
    }
}

#[test]
fn test_unpack_envelope_rejections() {
    let mut lxmf: FieldMap<MsgValue> = FieldMap::new();
    lxmf.insert(FIELD_CUSTOM_TYPE, MsgValue::String(PROTOCOL_TYPE.to_string()));
    match unpack_envelope(&lxmf) {
        Err(LrgpError::InvalidEnvelope(m)) => assert_eq!(m, "FIELD_CUSTOM_META is missing"),
        _ => panic!("expected missing meta"),
    }
    lxmf.insert(FIELD_CUSTOM_META, MsgValue::PosInt(3));
    match unpack_envelope(&lxmf) {
        Err(LrgpError::InvalidEnvelope(m)) => assert_eq!(m, "FIELD_CUSTOM_META is not a map"),
        _ => panic!("expected not a map"),
    }
    let bad_map = MsgValue::Dict(vec![(MsgValue::String("a".to_string()), MsgValue::String("ttt.1".to_string()))]);
    lxmf.insert(FIELD_CUSTOM_META, bad_map);
    match unpack_envelope(&lxmf) {
        Err(LrgpError::InvalidEnvelope(m)) => assert_eq!(m, "Missing envelope key: c"),
        _ => panic!("expected missing key"),
    }
    let env = pack_envelope("ttt", 1, "challenge", "abc", None);
    let mut m = env.duplicate();
    m.insert("a".to_string(), MsgValue::String("ttt".to_string()));
    lxmf.insert(FIELD_CUSTOM_META, value_from_map(m));
    match unpack_envelope(&lxmf) {
        Err(LrgpError::InvalidEnvelope(m)) => assert_eq!(m, "Invalid app.version format: \"ttt\""),
        _ => panic!("expected bad version"),
    }
    let mut m = env.duplicate();
    m.insert("a".to_string(), MsgValue::PosInt(1));
    lxmf.insert(FIELD_CUSTOM_META, value_from_map(m));
    match unpack_envelope(&lxmf) {
        Err(LrgpError::InvalidEnvelope(m)) => assert_eq!(m, "KEY_APP is not a string"),
        _ => panic!("expected non-string app"),
    }
    let mut other: FieldMap<MsgValue> = FieldMap::new();
    other.insert(FIELD_CUSTOM_TYPE, MsgValue::String("other.v1".to_string()));
    assert!(unpack_envelope(&other).unwrap().is_none());
}

#[test]
fn test_parse_app_version_rejects() {
    assert!(parse_app_version("ttt").is_none());
    assert!(parse_app_version("ttt.").is_none());
    assert!(parse_app_version("ttt.x").is_none());
    assert!(parse_app_version("ttt.4294967296").is_none());
    assert_eq!(parse_app_version("ttt.+7"), Some(("ttt", 7)));
    assert_eq!(parse_app_version(".3"), Some(("", 3)));
}

#[test]
fn test_error_messages() {
    assert_eq!(LrgpError::EnvelopeTooLarge(300, 200).message(), "envelope too large: 300 bytes (max 200)");
    assert_eq!(LrgpError::InvalidEnvelope("x".to_string()).message(), "invalid envelope: x");
    assert_eq!(
        LrgpError::IllegalTransition { command: "move".to_string(), status: "completed".to_string() }.message(),
        "illegal transition: cannot apply 'move' to session in 'completed' state"
    );
    assert_eq!(LrgpError::UnknownApp("chess".to_string()).message(), "unknown game: chess");
    assert_eq!(
        LrgpError::Validation { code: "c".to_string(), message: "m".to_string() }.message(),
        "validation error [c]: m"
    );
    assert_eq!(LrgpError::Store("s".to_string()).message(), "store error: s");
}

#[test]
fn test_float_values_roundtrip() {
    let mut payload = StrMap::new();
    payload.insert("f".to_string(), MsgValue::F64(1.5f64.to_bits()));
    payload.insert("g".to_string(), MsgValue::F32(2.25f32.to_bits()));
    let env = pack_envelope("ttt", 1, "move", "s", Some(payload));
    let bytes = pack_to_bytes(&env).unwrap();
    let f64_bytes: Vec<u8> = [&[0xcbu8][..], &1.5f64.to_bits().to_be_bytes()[..]].concat();
    assert!(bytes.windows(9).any(|w| w == f64_bytes.as_slice()));
    let f32_bytes: Vec<u8> = [&[0xcau8][..], &2.25f32.to_bits().to_be_bytes()[..]].concat();
    assert!(bytes.windows(5).any(|w| w == f32_bytes.as_slice()));
    let back = unpack_from_bytes(&bytes).unwrap();
    let p = map_from_value(back.get("p").unwrap()).unwrap();
    match p.get("f") {
        Some(MsgValue::F64(b)) => assert_eq!(f64::from_bits(*b), 1.5),
        _ => panic!("expected a 64-bit float"),
    }
    match p.get("g") {
        Some(MsgValue::F32(b)) => assert_eq!(f32::from_bits(*b), 2.25),
        _ => panic!("expected a 32-bit float"),
    }
}

#[test]
fn test_nested_values_roundtrip() {
    let mut inner = StrMap::new();
    inner.insert("k".to_string(), MsgValue::NegInt(-5));
    let mut payload = StrMap::new();
    payload.insert("arr".to_string(), MsgValue::Array(vec![MsgValue::Nil, MsgValue::Boolean(true), MsgValue::Binary(vec![1, 2])]));
    payload.insert("map".to_string(), value_from_map(inner));
    payload.insert("ext".to_string(), MsgValue::Ext(3, vec![9]));
    let env = pack_envelope("ttt", 1, "move", "s", Some(payload));
    let back = unpack_from_bytes(&pack_to_bytes(&env).unwrap()).unwrap();
    let p = map_from_value(back.get("p").unwrap()).unwrap();
    match p.get("arr") {
        Some(MsgValue::Array(items)) => {
            assert!(matches!(items[0], MsgValue::Nil));
            assert!(matches!(items[1], MsgValue::Boolean(true)));
            assert!(matches!(&items[2], MsgValue::Binary(b) if b == &vec![1, 2]));
        },
        _ => panic!("expected an array"),
    }
    let m = map_from_value(p.get("map").unwrap()).unwrap();
    assert!(matches!(m.get("k"), Some(MsgValue::NegInt(-5))));
    assert!(matches!(p.get("ext"), Some(MsgValue::Ext(3, b)) if b == &vec![9]));
}

fn nested_arrays(levels: usize) -> MsgValue {
    let mut v = MsgValue::Nil;
    for _ in 0..levels {
        v = MsgValue::Array(vec![v]);
    }
    v
}

fn nesting(v: &MsgValue) -> usize {
    let mut n = 0;
    let mut cur = v;
    while let MsgValue::Array(items) = cur {
        n += 1;
        cur = &items[0];
    }
    n
}

#[test]
fn test_roundtrip_at_the_decoder_depth_limit() {
    // Inside the envelope map a value has 1022 of the reader's 1024 depth
    // steps: 510 nested arrays (two steps each) and a nil fit.
    let mut env = StrMap::new();
    env.insert("d".to_string(), nested_arrays(510));
    let bytes = pack_to_bytes(&env).unwrap();
    let back = unpack_from_bytes(&bytes).unwrap();
    assert_eq!(nesting(back.get("d").unwrap()), 510);
    // One level more is refused by the reader.
    let mut env = StrMap::new();
    env.insert("d".to_string(), nested_arrays(511));
    let bytes = pack_to_bytes(&env).unwrap();
    match unpack_from_bytes(&bytes) {
        Err(LrgpError::InvalidEnvelope(m)) => assert!(m.starts_with("msgpack decode error: ")),
        _ => panic!("expected a decode error"),
    }
}
