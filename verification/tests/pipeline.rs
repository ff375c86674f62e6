use iongraph::{process_log, Error};

#[test]
fn end_to_end_two_blocks() {
    let text = r#"{"functions":[{"name":"f","passes":[{"name":"p1","mir":{"blocks":[
        {"number":0,"instructions":[{"id":0,"opcode":"mov r1 r2","type":"Int32"}],"successors":[1]},
        {"number":1,"instructions":[],"successors":[]}
    ]}}]}]}"#;
    let out = process_log(text).unwrap();
    assert!(out.contains("Graph for Function: f"));
    assert!(out.contains("After Ion Phase p1"));
    assert!(out.contains("Block#0"));
    assert!(out.contains("mov"));
    assert!(out.contains("r1 r2"));
    assert!(out.contains("Successor: Block#1"));
    assert!(out.contains("Block#1"));
    let expected = "\n\nGraph for Function: f\n\n  After Ion Phase p1\n\n\n      Block#0\n            0: mov      r1 r2      \"Int32\"\n          Successor: Block#1\n\n      Block#1\n";
    assert_eq!(out, expected);
}

#[test]
fn running_twice_is_byte_identical() {
    let text = r#"{"functions":[{"name":"f","passes":[{"name":"p1","mir":{"blocks":[
        {"number":0,"instructions":[{"id":3,"opcode":"ret","type":null}],"successors":[]}
    ]}}]}]}"#;
    let first = process_log(text).unwrap();
    let second = process_log(text).unwrap();
    assert_eq!(first, second);
}

#[test]
fn empty_function_list_renders_nothing() {
    let out = process_log(r#"{"functions":[]}"#).unwrap();
    assert_eq!(out, "");
}

#[test]
fn missing_opcode_aborts_whole_run() {
    let text = r#"{"functions":[{"name":"f","passes":[{"name":"p1","mir":{"blocks":[
        {"number":0,"instructions":[{"id":0,"type":"Int32"}],"successors":[]}
    ]}}]}]}"#;
    let err = process_log(text).unwrap_err();
    assert!(matches!(err, Error::MissingField));
}

#[test]
fn non_string_opcode_aborts_whole_run() {
    let text = r#"{"functions":[{"name":"f","passes":[{"name":"p1","mir":{"blocks":[
        {"number":0,"instructions":[{"id":0,"opcode":7,"type":"Int32"}],"successors":[]}
    ]}}]}]}"#;
    let err = process_log(text).unwrap_err();
    assert!(matches!(err, Error::MissingField));
}

#[test]
fn negative_id_aborts_whole_run() {
    let text = r#"{"functions":[{"name":"f","passes":[{"name":"p1","mir":{"blocks":[
        {"number":0,"instructions":[{"id":-1,"opcode":"ret","type":"Int32"}],"successors":[]}
    ]}}]}]}"#;
    let err = process_log(text).unwrap_err();
    assert!(matches!(err, Error::MissingField));
}

#[test]
fn missing_passes_aborts_whole_run() {
    let err = process_log(r#"{"functions":[{"name":"f"}]}"#).unwrap_err();
    assert!(matches!(err, Error::MissingField));
}

#[test]
fn missing_mir_blocks_aborts_whole_run() {
    let err =
        process_log(r#"{"functions":[{"name":"f","passes":[{"name":"p1"}]}]}"#).unwrap_err();
    assert!(matches!(err, Error::MissingField));
}

#[test]
fn missing_functions_aborts_whole_run() {
    let err = process_log(r#"{"name":"f"}"#).unwrap_err();
    assert!(matches!(err, Error::MissingField));
}

#[test]
fn malformed_json_is_a_parse_error() {
    let err = process_log("{\"functions\": [").unwrap_err();
    assert!(matches!(err, Error::Parse(_)));
}

#[test]
fn missing_display_fields_render_as_null() {
    let text = r#"{"functions":[{"passes":[{"mir":{"blocks":[
        {"instructions":[],"successors":[]}
    ]}}]}]}"#;
    let out = process_log(text).unwrap();
    assert!(out.contains("Graph for Function: null"));
    assert!(out.contains("After Ion Phase null"));
    assert!(out.contains("Block#null"));
}

#[test]
fn type_field_renders_as_json() {
    let text = r#"{"functions":[{"name":"f","passes":[{"name":"p","mir":{"blocks":[
        {"number":0,"instructions":[
            {"id":0,"opcode":"a","type":"Int32"},
            {"id":1,"opcode":"b","type":7},
            {"id":2,"opcode":"c","type":-1.5},
            {"id":3,"opcode":"d","type":true},
            {"id":4,"opcode":"e","type":null}
        ],"successors":[]}
    ]}}]}]}"#;
    let out = process_log(text).unwrap();
    assert!(out.contains(" \"Int32\"\n"));
    assert!(out.contains(" 7\n"));
    assert!(out.contains(" -1.5\n"));
    assert!(out.contains(" true\n"));
    assert!(out.contains(" null\n"));
}

#[test]
fn string_scalars_are_escaped_like_json() {
    let text = "{\"functions\":[{\"name\":\"f\",\"passes\":[{\"name\":\"p\",\"mir\":{\"blocks\":[{\"number\":0,\"instructions\":[{\"id\":0,\"opcode\":\"a\",\"type\":\"q\\\"b\\\\c\\nd\"}],\"successors\":[]}]}}]}]}";
    let out = process_log(text).unwrap();
    assert!(out.contains(" \"q\\\"b\\\\c\\nd\"\n"));
}

#[test]
fn lower_tier_in_the_data_is_ignored() {
    let text = r#"{"functions":[{"name":"f","passes":[{"name":"p1",
        "mir":{"blocks":[{"number":0,"instructions":[],"successors":[]}]},
        "lir":{"blocks":[{"number":9,"instructions":[],"successors":[]}]}
    }]}]}"#;
    let out = process_log(text).unwrap();
    assert!(out.contains("Block#0"));
    assert!(!out.contains("Block#9"));
}

#[test]
fn non_scalar_block_number_is_a_shape_error() {
    let text = r#"{"functions":[{"name":"f","passes":[{"name":"p1","mir":{"blocks":[
        {"number":[0],"instructions":[],"successors":[]}
    ]}}]}]}"#;
    let err = process_log(text).unwrap_err();
    assert!(matches!(err, Error::MissingField));
}

#[test]
fn wide_ids_keep_their_digits() {
    let text = r#"{"functions":[{"name":"f","passes":[{"name":"p1","mir":{"blocks":[
        {"number":0,"instructions":[{"id":1234,"opcode":"nop","type":0}],"successors":[]}
    ]}}]}]}"#;
    let out = process_log(text).unwrap();
    assert!(out.contains("          1234: nop"));
}
