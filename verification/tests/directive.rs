use pgtest::directive::{plan, send_line, Args, Kind, Plan, UsageError};
use pgtest::wire::Frame;

fn args_of(pairs: &[(&str, &[&str])]) -> Args {
    let mut args = Args::new();
    for (key, values) in pairs {
        args.push(key.to_string(), values.iter().map(|v| v.to_string()).collect());
    }
    args
}

fn strings(items: &[&str]) -> Vec<String> {
    items.iter().map(|s| s.to_string()).collect()
}

#[test]
fn args_are_taken_out_once() {
    let mut args = args_of(&[("conn", &["a"]), ("ignore", &["x", "y"])]);
    assert!(!args.is_empty());
    assert_eq!(args.remove("ignore"), Some(strings(&["x", "y"])));
    assert_eq!(args.remove("ignore"), None);
    assert_eq!(args.len(), 1);
    assert_eq!(args.remove("conn"), Some(strings(&["a"])));
    assert!(args.is_empty());
}

#[test]
fn send_plans_its_lines() {
    let input = "Query {\"query\": \"SELECT 1\"}\nSync\n";
    match plan("send", input, Args::new()) {
        Ok(Plan::Send { conn, lines }) => {
            assert_eq!(conn, None);
            assert_eq!(lines, strings(&["Query {\"query\": \"SELECT 1\"}", "Sync"]));
        }
        other => panic!("{:?}", other),
    }
}

#[test]
fn send_output_is_empty() {
    let p = plan("send", "Sync\n", args_of(&[("conn", &["c"])])).unwrap();
    assert!(matches!(&p, Plan::Send { conn: Some(c), .. } if c == "c"));
    assert_eq!(p.output(), "");
    assert_eq!(plan("send", "", Args::new()).unwrap().output(), "");
}

#[test]
fn send_refuses_arguments_it_does_not_know() {
    assert_eq!(
        plan("send", "Sync\n", args_of(&[("conn", &["c"]), ("ignore", &[])])).err(),
        Some(UsageError::ExtraArguments)
    );
}

#[test]
fn until_refuses_targets_that_are_no_labels() {
    assert_eq!(plan("until", "ReadyForQuery\nReady\n", Args::new()).err(), Some(UsageError::UnknownTarget));
    assert_eq!(plan("until", "ParameterStatus\n", Args::new()).err(), Some(UsageError::UnknownTarget));
    assert_eq!(plan("until", "\n", Args::new()).err(), Some(UsageError::UnknownTarget));
    assert_eq!(plan("until", "ReadyForQuery {}\n", Args::new()).err(), Some(UsageError::UnknownTarget));
    // unknown arguments are refused first
    assert_eq!(
        plan("until", "Ready\n", args_of(&[("x", &[])])).err(),
        Some(UsageError::ExtraArguments)
    );
    let every = "ReadyForQuery\nRowDescription\nDataRow\nCommandComplete\nParseComplete\nBindComplete\n\
PortalSuspended\nErrorResponse\nNoticeResponse\nCopyOut\nCopyIn\nCopyData\nCopyDone\n\
ParameterDescription\nNoData\nEmptyQueryResponse\nUNKNOWN\n";
    assert!(plan("until", every, Args::new()).is_ok());
}

#[test]
fn conn_takes_its_first_value() {
    match plan("until", "ReadyForQuery\n", args_of(&[("conn", &["secondary", "other"])])) {
        Ok(Plan::Until { conn, .. }) => assert_eq!(conn, Some("secondary".to_string())),
        other => panic!("{:?}", other),
    }
}

#[test]
fn conn_without_a_name_is_an_error() {
    assert_eq!(plan("send", "", args_of(&[("conn", &[])])).err(), Some(UsageError::MissingConnName));
    // the connection is read before the directive's name
    assert_eq!(plan("nope", "", args_of(&[("conn", &[])])).err(), Some(UsageError::MissingConnName));
}

#[test]
fn unknown_directive_is_an_error() {
    assert_eq!(plan("query", "", Args::new()).err(), Some(UsageError::UnknownDirective));
    assert_eq!(plan("", "", Args::new()).err(), Some(UsageError::UnknownDirective));
    assert_eq!(plan("Send", "", Args::new()).err(), Some(UsageError::UnknownDirective));
}

fn observed(p: &mut Plan, frame: Frame, lead: char) {
    match p {
        Plan::Until { wait, .. } => wait.observe(&frame, lead).unwrap(),
        _ => panic!("no wait"),
    }
}

fn error_frame() -> Frame {
    Frame::ErrorResponse {
        fields: Some(vec![
            (b'S', b"ERROR".to_vec()),
            (b'C', b"XX000".to_vec()),
            (b'M', b"boom".to_vec()),
            (b'F', b"file.c".to_vec()),
        ]),
    }
}

#[test]
fn until_shows_code_severity_and_message_by_default() {
    let mut p = plan("until", "ErrorResponse\n", Args::new()).unwrap();
    observed(&mut p, error_frame(), 'E');
    assert_eq!(
        p.output(),
        "ErrorResponse {\"fields\":[{\"typ\":\"S\",\"value\":\"ERROR\"},{\"typ\":\"C\",\"value\":\"XX000\"},{\"typ\":\"M\",\"value\":\"boom\"}]}\n"
    );
}

#[test]
fn until_takes_the_error_fields_asked_for() {
    let mut p = plan("until", "ErrorResponse\n", args_of(&[("err_field_typs", &["S", "F"])])).unwrap();
    observed(&mut p, error_frame(), 'E');
    assert_eq!(
        p.output(),
        "ErrorResponse {\"fields\":[{\"typ\":\"S\",\"value\":\"ERROR\"},{\"typ\":\"F\",\"value\":\"file.c\"}]}\n"
    );
    let mut p = plan("until", "ErrorResponse\n", args_of(&[("err_field_typs", &["MC"])])).unwrap();
    observed(&mut p, error_frame(), 'E');
    assert_eq!(
        p.output(),
        "ErrorResponse {\"fields\":[{\"typ\":\"C\",\"value\":\"XX000\"},{\"typ\":\"M\",\"value\":\"boom\"}]}\n"
    );
}

#[test]
fn until_with_no_error_fields_shows_none() {
    let mut p = plan("until", "ErrorResponse\n", args_of(&[("no_error_fields", &[])])).unwrap();
    observed(&mut p, error_frame(), 'E');
    assert_eq!(p.output(), "ErrorResponse {\"fields\":[]}\n");
}

#[test]
fn until_ignores_the_labels_asked_for() {
    let mut p = plan("until", "ReadyForQuery\n", args_of(&[("ignore", &["NoticeResponse", "NoData"])])).unwrap();
    observed(&mut p, Frame::NoData, 'n');
    observed(&mut p, Frame::NoticeResponse { fields: Some(vec![]) }, 'N');
    observed(&mut p, Frame::ReadyForQuery { status: b'I' }, 'Z');
    assert_eq!(p.output(), "ReadyForQuery {\"status\":\"I\"}\n");
}

#[test]
fn until_refuses_arguments_it_does_not_know() {
    assert_eq!(
        plan("until", "ReadyForQuery\n", args_of(&[("igonre", &["x"])])).err(),
        Some(UsageError::ExtraArguments)
    );
    // with no_error_fields, err_field_typs is left over
    assert_eq!(
        plan("until", "", args_of(&[("no_error_fields", &[]), ("err_field_typs", &["C"])])).err(),
        Some(UsageError::ExtraArguments)
    );
    assert!(plan(
        "until",
        "",
        args_of(&[("ignore", &[]), ("err_field_typs", &["C"]), ("conn", &["x"])])
    )
    .is_ok());
}

#[test]
fn until_output_ends_each_line() {
    let mut p = plan("until", "ParseComplete\nBindComplete\n", Args::new()).unwrap();
    assert_eq!(p.output(), "\n");
    observed(&mut p, Frame::ParseComplete, '1');
    assert_eq!(p.output(), "ParseComplete\n");
    observed(&mut p, Frame::BindComplete, '2');
    assert_eq!(p.output(), "ParseComplete\nBindComplete\n");
    assert!(matches!(&p, Plan::Until { wait, .. } if wait.is_done()));
}

#[test]
fn send_lines_name_their_kind() {
    let cases = [
        ("Query", Kind::Query),
        ("Parse", Kind::Parse),
        ("Sync", Kind::Sync),
        ("Bind", Kind::Bind),
        ("Describe", Kind::Describe),
        ("Execute", Kind::Execute),
        ("CopyData", Kind::CopyData),
        ("CopyDone", Kind::CopyDone),
        ("CopyFail", Kind::CopyFail),
    ];
    for (word, kind) in cases {
        let line = send_line(word).unwrap();
        assert_eq!(line.kind, kind);
        assert_eq!(line.args, "{}");
    }
}

#[test]
fn send_line_keeps_the_arguments() {
    let line = send_line("Bind {\"values\": [\"blah\", \"4\"]}").unwrap();
    assert_eq!(line.kind, Kind::Bind);
    assert_eq!(line.args, "{\"values\": [\"blah\", \"4\"]}");
    let line = send_line("CopyData \"1\\t2\\n\"").unwrap();
    assert_eq!(line.kind, Kind::CopyData);
    assert_eq!(line.args, "\"1\\t2\\n\"");
    // a space and nothing behind it: empty arguments, not the default
    assert_eq!(send_line("Query ").unwrap().args, "");
}

#[test]
fn send_line_refuses_unknown_kinds() {
    assert_eq!(send_line("Flush").err(), Some(UsageError::UnknownMessage));
    assert_eq!(send_line("").err(), Some(UsageError::UnknownMessage));
    assert_eq!(send_line("query {}").err(), Some(UsageError::UnknownMessage));
    assert_eq!(send_line(" Query").err(), Some(UsageError::UnknownMessage));
}
