use lrgp::json::{rmpv_to_json, JsonValue};
use lrgp::value::MsgValue;

fn as_str(v: &JsonValue) -> &str {
    match v {
        JsonValue::String(s) => s.as_str(),
        _ => panic!("not a string"),
    }
}

#[test]
fn test_json_scalars() {
    assert!(matches!(rmpv_to_json(&MsgValue::Nil), JsonValue::Null));
    assert!(matches!(rmpv_to_json(&MsgValue::Boolean(true)), JsonValue::Bool(true)));
    assert!(matches!(rmpv_to_json(&MsgValue::PosInt(7)), JsonValue::UInt(7)));
    assert!(matches!(rmpv_to_json(&MsgValue::NegInt(5)), JsonValue::UInt(5)));
    assert!(matches!(rmpv_to_json(&MsgValue::NegInt(-3)), JsonValue::Int(-3)));
    let bits = 1.5f64.to_bits();
    assert!(matches!(rmpv_to_json(&MsgValue::F64(bits)), JsonValue::F64(b) if b == bits));
    assert!(matches!(rmpv_to_json(&MsgValue::Ext(1, vec![1, 2])), JsonValue::Null));
    assert_eq!(as_str(&rmpv_to_json(&MsgValue::Binary(vec![0xab, 0x01, 0xff]))), "ab01ff");
    assert_eq!(as_str(&rmpv_to_json(&MsgValue::InvalidString(vec![0xff]))), "");
    assert_eq!(as_str(&rmpv_to_json(&MsgValue::String("héllo".to_string()))), "héllo");
}

#[test]
fn test_json_map_keeps_string_keys_in_order() {
    let v = MsgValue::Dict(vec![
        (MsgValue::String("b".to_string()), MsgValue::PosInt(1)),
        (MsgValue::PosInt(2), MsgValue::Nil),
        (MsgValue::InvalidString(vec![0xff]), MsgValue::Nil),
        (
            MsgValue::String("a".to_string()),
            MsgValue::Array(vec![MsgValue::Binary(vec![0x0f]), MsgValue::NegInt(-1)]),
        ),
    ]);
    match rmpv_to_json(&v) {
        JsonValue::Object(entries) => {
            assert_eq!(entries.len(), 2);
            assert_eq!(entries[0].0, "b");
            assert!(matches!(entries[0].1, JsonValue::UInt(1)));
            assert_eq!(entries[1].0, "a");
            match &entries[1].1 {
                JsonValue::Array(items) => {
                    assert_eq!(items.len(), 2);
                    assert_eq!(as_str(&items[0]), "0f");
                    assert!(matches!(items[1], JsonValue::Int(-1)));
                },
                _ => panic!("not an array"),
            }
        },
        _ => panic!("not an object"),
    }
}
