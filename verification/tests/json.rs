use pgtest::json::{
    array_json, quote, CommandComplete, CopyOut, DataRow, ErrorField, ErrorResponse, Field,
    ParameterDescription, ReadyForQuery, RowDescription,
};

#[test]
fn quote_plain_text() {
    assert_eq!(quote("SELECT 1"), "\"SELECT 1\"");
    assert_eq!(quote(""), "\"\"");
    assert_eq!(quote("h\u{e9}\u{1f600}\u{7f}"), "\"h\u{e9}\u{1f600}\u{7f}\"");
}

#[test]
fn quote_escapes() {
    assert_eq!(quote("a\"b"), "\"a\\\"b\"");
    assert_eq!(quote("a\\b"), "\"a\\\\b\"");
    assert_eq!(quote("\u{8}\t\n\u{c}\r"), "\"\\b\\t\\n\\f\\r\"");
    assert_eq!(quote("\u{0}\u{1}\u{b}\u{1f}"), "\"\\u0000\\u0001\\u000b\\u001f\"");
    assert_eq!(quote("/"), "\"/\"");
}

#[test]
fn arrays() {
    let none: Vec<String> = vec![];
    assert_eq!(array_json(&none), "[]");
    assert_eq!(array_json(&vec!["1".to_string(), "\"a\"".to_string()]), "[1,\"a\"]");
}

#[test]
fn payloads() {
    assert_eq!(ReadyForQuery { status: "I".to_string() }.to_json(), "{\"status\":\"I\"}");
    assert_eq!(
        RowDescription {
            fields: vec![Field { name: "id".to_string() }, Field { name: "a\"b".to_string() }]
        }
        .to_json(),
        "{\"fields\":[{\"name\":\"id\"},{\"name\":\"a\\\"b\"}]}"
    );
    assert_eq!(RowDescription { fields: vec![] }.to_json(), "{\"fields\":[]}");
    assert_eq!(
        DataRow { fields: vec!["blah".to_string(), "5".to_string()] }.to_json(),
        "{\"fields\":[\"blah\",\"5\"]}"
    );
    assert_eq!(
        CopyOut { format: "text".to_string(), column_formats: vec!["text".to_string(), "binary".to_string()] }
            .to_json(),
        "{\"format\":\"text\",\"column_formats\":[\"text\",\"binary\"]}"
    );
    assert_eq!(ParameterDescription::new(vec![23, 25, 4294967295]).to_json(),
        "{\"parameters\":[23,25,4294967295]}");
    assert_eq!(ParameterDescription::new(vec![]).to_json(), "{\"parameters\":[]}");
    assert_eq!(CommandComplete { tag: "SELECT 1".to_string() }.to_json(), "{\"tag\":\"SELECT 1\"}");
    assert_eq!(
        ErrorField { typ: 'C', value: "42601".to_string() }.to_json(),
        "{\"typ\":\"C\",\"value\":\"42601\"}"
    );
    assert_eq!(
        ErrorResponse {
            fields: vec![
                ErrorField { typ: 'C', value: "42601".to_string() },
                ErrorField { typ: '"', value: "x\ny".to_string() },
            ]
        }
        .to_json(),
        "{\"fields\":[{\"typ\":\"C\",\"value\":\"42601\"},{\"typ\":\"\\\"\",\"value\":\"x\\ny\"}]}"
    );
}
