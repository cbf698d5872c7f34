use json_mock::bson::BsonValue;
use json_mock::codec::{decode, encode, is_identity_key};
use json_mock::error::StoreError;
use json_mock::json::JsonValue;

fn s(t: &str) -> String {
    t.to_string()
}

fn sample() -> JsonValue {
    JsonValue::Object(vec![
        (s("name"), JsonValue::Str(s("test"))),
        (s("count"), JsonValue::Int(42)),
        (s("active"), JsonValue::Bool(true)),
        (
            s("items"),
            JsonValue::Array(vec![JsonValue::Int(1), JsonValue::Int(2), JsonValue::Int(3)]),
        ),
    ])
}

fn member<'a>(j: &'a JsonValue, key: &str) -> Option<&'a JsonValue> {
    match j {
        JsonValue::Object(ms) => ms.iter().find(|(k, _)| k == key).map(|(_, v)| v),
        _ => None,
    }
}

#[test]
fn test_json_to_bson_conversion() {
    let json = sample();
    let bson = encode(&json);
    let back = decode(&bson).unwrap();
    assert_eq!(json, back);
}

#[test]
fn test_bson_to_json_skips_id() {
    let doc = BsonValue::Document(vec![
        (s("_id"), BsonValue::Str(s("some_id"))),
        (s("name"), BsonValue::Str(s("test"))),
    ]);
    let json = decode(&doc).unwrap();
    assert!(member(&json, "_id").is_none());
    assert_eq!(member(&json, "name").unwrap(), &JsonValue::Str(s("test")));
}

#[test]
fn encode_maps_each_variant() {
    let j = JsonValue::Array(vec![
        JsonValue::Null,
        JsonValue::Bool(false),
        JsonValue::Int(-5),
        JsonValue::Float(1.5f64.to_bits()),
        JsonValue::Str(s("x")),
    ]);
    let expected = BsonValue::Array(vec![
        BsonValue::Null,
        BsonValue::Boolean(false),
        BsonValue::Int64(-5),
        BsonValue::Double(1.5f64.to_bits()),
        BsonValue::Str(s("x")),
    ]);
    assert_eq!(encode(&j), expected);
}

#[test]
fn round_trip_floats_and_nesting() {
    let j = JsonValue::Object(vec![
        (s("pi"), JsonValue::Float(3.25f64.to_bits())),
        (s("neg"), JsonValue::Float((-0.5f64).to_bits())),
        (s("big"), JsonValue::Int(i64::MAX)),
        (s("small"), JsonValue::Int(i64::MIN)),
        (
            s("nested"),
            JsonValue::Object(vec![(s("list"), JsonValue::Array(vec![JsonValue::Object(vec![])]))]),
        ),
        (s("empty"), JsonValue::Array(vec![])),
        (s("nothing"), JsonValue::Null),
    ]);
    assert_eq!(decode(&encode(&j)).unwrap(), j);
}

#[test]
fn round_trip_scalars() {
    for j in [
        JsonValue::Null,
        JsonValue::Bool(true),
        JsonValue::Int(0),
        JsonValue::Str(String::new()),
        JsonValue::Str(s("héllo")),
    ] {
        assert_eq!(decode(&encode(&j)).unwrap(), j);
    }
}

#[test]
fn decode_hides_identity_at_every_depth() {
    let doc = BsonValue::Document(vec![
        (s("_id"), BsonValue::ObjectId([1; 12])),
        (
            s("inner"),
            BsonValue::Array(vec![BsonValue::Document(vec![
                (s("_id"), BsonValue::Int32(9)),
                (s("k"), BsonValue::Int32(7)),
            ])]),
        ),
    ]);
    let expected = JsonValue::Object(vec![(
        s("inner"),
        JsonValue::Array(vec![JsonValue::Object(vec![(s("k"), JsonValue::Int(7))])]),
    )]);
    assert_eq!(decode(&doc).unwrap(), expected);
}

#[test]
fn decode_identity_field_is_skipped_before_decoding() {
    let doc = BsonValue::Document(vec![(s("_id"), BsonValue::Unsupported(s("Binary")))]);
    assert_eq!(decode(&doc).unwrap(), JsonValue::Object(vec![]));
}

#[test]
fn decode_unsupported_type_fails() {
    let doc = BsonValue::Document(vec![
        (s("a"), BsonValue::Int64(1)),
        (s("b"), BsonValue::Unsupported(s("RegularExpression"))),
        (s("c"), BsonValue::Unsupported(s("Binary"))),
    ]);
    assert_eq!(decode(&doc), Err(StoreError::InvalidData(s("RegularExpression"))));
    let arr = BsonValue::Array(vec![BsonValue::Null, BsonValue::Unsupported(s("JavaScriptCode"))]);
    assert_eq!(decode(&arr), Err(StoreError::InvalidData(s("JavaScriptCode"))));
}

#[test]
fn decode_int32_and_non_finite_doubles() {
    assert_eq!(decode(&BsonValue::Int32(-3)).unwrap(), JsonValue::Int(-3));
    assert_eq!(decode(&BsonValue::Double(f64::NAN.to_bits())).unwrap(), JsonValue::Null);
    assert_eq!(decode(&BsonValue::Double(f64::INFINITY.to_bits())).unwrap(), JsonValue::Null);
    assert_eq!(
        decode(&BsonValue::Double(2.0f64.to_bits())).unwrap(),
        JsonValue::Float(2.0f64.to_bits())
    );
}

#[test]
fn decode_object_id_as_hex() {
    let oid = [0x65, 0x0a, 0xff, 0x00, 0x01, 0x02, 0x03, 0x04, 0x05, 0x06, 0x07, 0xab];
    assert_eq!(
        decode(&BsonValue::ObjectId(oid)).unwrap(),
        JsonValue::Str(s("650aff0001020304050607ab"))
    );
}

#[test]
fn decode_datetime_as_text() {
    match decode(&BsonValue::DateTime(1_700_000_000_000)).unwrap() {
        JsonValue::Str(t) => {
            assert!(t.contains("2023"));
            assert_ne!(t, "1700000000000");
        }
        other => panic!("expected text, got {:?}", other),
    }
}

#[test]
fn identity_key_is_exact() {
    assert!(is_identity_key("_id"));
    assert!(!is_identity_key("id"));
    assert!(!is_identity_key("_idx"));
    assert!(!is_identity_key("_iD"));
}
