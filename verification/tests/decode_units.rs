use iongraph::decode::{decode_instruction, display_field};
use iongraph::json::Json;
use iongraph::scalar::Scalar;

fn obj(entries: Vec<(&str, Json)>) -> Json {
    Json::Obj(entries.into_iter().map(|(k, v)| (k.to_string(), v)).collect())
}

#[test]
fn absent_display_field_stands_as_null() {
    let j = obj(vec![]);
    assert_eq!(display_field(&j, "number").unwrap(), Scalar::Null);
}

#[test]
fn present_non_scalar_display_field_is_an_error() {
    let j = obj(vec![("number", Json::Arr(vec![]))]);
    assert!(display_field(&j, "number").is_err());
}

#[test]
fn instruction_needs_integer_id_and_string_opcode() {
    let good = obj(vec![
        ("id", Json::Scalar(Scalar::UInt(3))),
        ("opcode", Json::Scalar(Scalar::Str("ret".to_string()))),
    ]);
    let i = decode_instruction(&good).unwrap();
    assert_eq!(i.id, 3);
    assert_eq!(i.opcode, "ret");
    assert_eq!(i.ty, Scalar::Null);

    let bad = obj(vec![("opcode", Json::Scalar(Scalar::Str("ret".to_string())))]);
    assert!(decode_instruction(&bad).is_err());
}

#[test]
fn first_matching_key_wins() {
    let j = obj(vec![
        ("name", Json::Scalar(Scalar::Str("a".to_string()))),
        ("name", Json::Scalar(Scalar::Str("b".to_string()))),
    ]);
    assert_eq!(display_field(&j, "name").unwrap(), Scalar::Str("a".to_string()));
}
