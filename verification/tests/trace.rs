use pgtest::trace::{describe, holds, Entry};
use pgtest::wire::Frame;

fn line_of(frame: &Frame, lead: char, filter: &[char]) -> Option<String> {
    describe(frame, lead, &filter.to_vec()).expect("readable").map(|e| e.to_line())
}

#[test]
fn entry_lines() {
    let bare = Entry { label: "ParseComplete".to_string(), args: String::new() };
    assert_eq!(bare.to_line(), "ParseComplete");
    let full = Entry { label: "CommandComplete".to_string(), args: "{\"tag\":\"SELECT 1\"}".to_string() };
    assert_eq!(full.to_line(), "CommandComplete {\"tag\":\"SELECT 1\"}");
}

#[test]
fn ready_for_query_shows_the_status() {
    let frame = Frame::ReadyForQuery { status: b'I' };
    assert_eq!(line_of(&frame, 'Z', &[]), Some("ReadyForQuery {\"status\":\"I\"}".to_string()));
    let frame = Frame::ReadyForQuery { status: 0xe9 };
    assert_eq!(line_of(&frame, 'Z', &[]), Some("ReadyForQuery {\"status\":\"\u{e9}\"}".to_string()));
}

#[test]
fn row_description_shows_the_column_names() {
    let frame = Frame::RowDescription { names: Some(vec!["?column?".to_string(), "b".to_string()]) };
    assert_eq!(
        line_of(&frame, 'T', &[]),
        Some("RowDescription {\"fields\":[{\"name\":\"?column?\"},{\"name\":\"b\"}]}".to_string())
    );
}

#[test]
fn data_row_round_trips_its_values() {
    let frame = Frame::DataRow { values: Some(vec![Some(b"blah".to_vec()), Some(b"5".to_vec())]) };
    assert_eq!(line_of(&frame, 'D', &[]), Some("DataRow {\"fields\":[\"blah\",\"5\"]}".to_string()));
}

#[test]
fn null_is_shown_as_null_and_differs_from_empty() {
    let frame = Frame::DataRow { values: Some(vec![None, Some(vec![])]) };
    assert_eq!(line_of(&frame, 'D', &[]), Some("DataRow {\"fields\":[\"NULL\",\"\"]}".to_string()));
    let null = line_of(&Frame::DataRow { values: Some(vec![None]) }, 'D', &[]);
    let empty = line_of(&Frame::DataRow { values: Some(vec![Some(vec![])]) }, 'D', &[]);
    assert_ne!(null, empty);
}

#[test]
fn bytes_that_are_not_utf8_are_shown_as_a_list() {
    let frame = Frame::DataRow { values: Some(vec![Some(vec![0xff, 0x00]), Some(b"ok".to_vec())]) };
    assert_eq!(line_of(&frame, 'D', &[]), Some("DataRow {\"fields\":[\"[255, 0]\",\"ok\"]}".to_string()));
    let frame = Frame::CopyData { data: vec![0x80] };
    assert_eq!(line_of(&frame, 'd', &[]), Some("CopyData \"[128]\"".to_string()));
}

#[test]
fn copy_data_shows_its_text() {
    let frame = Frame::CopyData { data: b"1\t2\n".to_vec() };
    assert_eq!(line_of(&frame, 'd', &[]), Some("CopyData \"1\\t2\\n\"".to_string()));
}

#[test]
fn command_complete_shows_the_tag() {
    let frame = Frame::CommandComplete { tag: Some("SELECT 1".to_string()) };
    assert_eq!(line_of(&frame, 'C', &[]), Some("CommandComplete {\"tag\":\"SELECT 1\"}".to_string()));
}

#[test]
fn frames_without_payload_show_the_label_alone() {
    assert_eq!(line_of(&Frame::ParseComplete, '1', &[]), Some("ParseComplete".to_string()));
    assert_eq!(line_of(&Frame::BindComplete, '2', &[]), Some("BindComplete".to_string()));
    assert_eq!(line_of(&Frame::PortalSuspended, 's', &[]), Some("PortalSuspended".to_string()));
    assert_eq!(line_of(&Frame::CopyDone, 'c', &[]), Some("CopyDone".to_string()));
    assert_eq!(line_of(&Frame::NoData, 'n', &[]), Some("NoData".to_string()));
    assert_eq!(line_of(&Frame::EmptyQueryResponse, 'I', &[]), Some("EmptyQueryResponse".to_string()));
}

#[test]
fn parameter_status_leaves_no_entry() {
    assert_eq!(line_of(&Frame::ParameterStatus, 'S', &['C', 'S', 'M']), None);
}

#[test]
fn unknown_frames_show_the_leading_byte() {
    assert_eq!(line_of(&Frame::Other, 'K', &[]), Some("UNKNOWN 'K'".to_string()));
    assert_eq!(line_of(&Frame::AuthenticationOk, 'R', &[]), Some("UNKNOWN 'R'".to_string()));
}

fn error_frame() -> Vec<(u8, Vec<u8>)> {
    vec![
        (b'S', b"ERROR".to_vec()),
        (b'C', b"42601".to_vec()),
        (b'M', b"syntax error".to_vec()),
    ]
}

#[test]
fn error_fields_pass_the_filter_in_frame_order() {
    let frame = Frame::ErrorResponse { fields: Some(error_frame()) };
    assert_eq!(
        line_of(&frame, 'E', &['C', 'M']),
        Some("ErrorResponse {\"fields\":[{\"typ\":\"C\",\"value\":\"42601\"},{\"typ\":\"M\",\"value\":\"syntax error\"}]}".to_string())
    );
    // the filter's own order does not matter
    assert_eq!(line_of(&frame, 'E', &['M', 'C']), line_of(&frame, 'E', &['C', 'M']));
    assert_eq!(
        line_of(&frame, 'E', &['C', 'S', 'M']),
        Some("ErrorResponse {\"fields\":[{\"typ\":\"S\",\"value\":\"ERROR\"},{\"typ\":\"C\",\"value\":\"42601\"},{\"typ\":\"M\",\"value\":\"syntax error\"}]}".to_string())
    );
}

#[test]
fn empty_filter_leaves_no_error_fields() {
    let frame = Frame::ErrorResponse { fields: Some(error_frame()) };
    assert_eq!(line_of(&frame, 'E', &[]), Some("ErrorResponse {\"fields\":[]}".to_string()));
}

#[test]
fn notice_is_an_error_by_another_label() {
    let frame = Frame::NoticeResponse { fields: Some(error_frame()) };
    assert_eq!(
        line_of(&frame, 'N', &['S']),
        Some("NoticeResponse {\"fields\":[{\"typ\":\"S\",\"value\":\"ERROR\"}]}".to_string())
    );
}

#[test]
fn error_field_that_is_not_utf8_is_unreadable_only_where_shown() {
    let frame = Frame::ErrorResponse { fields: Some(vec![(b'C', vec![0xff]), (b'M', b"m".to_vec())]) };
    assert!(describe(&frame, 'E', &vec!['C']).is_err());
    assert_eq!(
        line_of(&frame, 'E', &['M']),
        Some("ErrorResponse {\"fields\":[{\"typ\":\"M\",\"value\":\"m\"}]}".to_string())
    );
}

#[test]
fn copy_responses_name_their_formats() {
    let frame = Frame::CopyOut { format: 0, column_formats: Some(vec![0, 1, 7]) };
    assert_eq!(
        line_of(&frame, 'H', &[]),
        Some("CopyOut {\"format\":\"text\",\"column_formats\":[\"text\",\"binary\",\"unknown: 7\"]}".to_string())
    );
    let frame = Frame::CopyIn { format: 1, column_formats: Some(vec![]) };
    assert_eq!(line_of(&frame, 'G', &[]), Some("CopyIn {\"format\":\"binary\",\"column_formats\":[]}".to_string()));
    let frame = Frame::CopyIn { format: 200, column_formats: Some(vec![]) };
    assert_eq!(line_of(&frame, 'G', &[]), Some("CopyIn {\"format\":\"unknown: 200\",\"column_formats\":[]}".to_string()));
}

#[test]
fn parameter_description_lists_the_types() {
    let frame = Frame::ParameterDescription { parameters: Some(vec![25, 23]) };
    assert_eq!(line_of(&frame, 't', &[]), Some("ParameterDescription {\"parameters\":[25,23]}".to_string()));
}

#[test]
fn unreadable_bodies_are_errors() {
    assert!(describe(&Frame::RowDescription { names: None }, 'T', &vec![]).is_err());
    assert!(describe(&Frame::DataRow { values: None }, 'D', &vec![]).is_err());
    assert!(describe(&Frame::CommandComplete { tag: None }, 'C', &vec![]).is_err());
    assert!(describe(&Frame::ErrorResponse { fields: None }, 'E', &vec![]).is_err());
    assert!(describe(&Frame::NoticeResponse { fields: None }, 'N', &vec![]).is_err());
    assert!(describe(&Frame::CopyOut { format: 0, column_formats: None }, 'H', &vec![]).is_err());
    assert!(describe(&Frame::CopyIn { format: 0, column_formats: None }, 'G', &vec![]).is_err());
    assert!(describe(&Frame::ParameterDescription { parameters: None }, 't', &vec![]).is_err());
}

#[test]
fn filter_membership() {
    assert!(holds(&vec!['C', 'M'], 'M'));
    assert!(!holds(&vec!['C', 'M'], 'S'));
    assert!(!holds(&vec![], 'S'));
}
