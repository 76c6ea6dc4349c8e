use pgtest::request::{Bind, Describe, Execute, Parse, Query, Request};

fn framed(tag: u8, body: &[u8]) -> Vec<u8> {
    let mut out = vec![tag];
    out.extend_from_slice(&((body.len() as u32 + 4).to_be_bytes()));
    out.extend_from_slice(body);
    out
}

#[test]
fn query_frame_bytes() {
    let req = Request::Query(Query { query: "SELECT 1".to_string() });
    assert_eq!(req.encode(), Some(framed(b'Q', b"SELECT 1\0")));
}

#[test]
fn query_with_nul_is_refused() {
    let req = Request::Query(Query { query: "SELECT\0 1".to_string() });
    assert_eq!(req.encode(), None);
}

#[test]
fn parse_frame_bytes_default_name() {
    let req = Request::Parse(Parse { name: None, query: "SELECT $1".to_string() });
    assert_eq!(req.encode(), Some(framed(b'P', b"\0SELECT $1\0\0\0")));
}

#[test]
fn parse_frame_bytes_named() {
    let req = Request::Parse(Parse { name: Some("s1".to_string()), query: "X".to_string() });
    assert_eq!(req.encode(), Some(framed(b'P', b"s1\0X\0\0\0")));
}

#[test]
fn bind_frame_bytes_defaults() {
    let req = Request::Bind(Bind { portal: None, statement: None, values: None, result_formats: None });
    // portal, statement, no formats, no values, no result formats
    assert_eq!(req.encode(), Some(framed(b'B', b"\0\0\0\0\0\0\0\0")));
}

#[test]
fn bind_frame_bytes_values_are_text() {
    let req = Request::Bind(Bind {
        portal: Some("p".to_string()),
        statement: Some("s".to_string()),
        values: Some(vec!["blah".to_string(), "4".to_string()]),
        result_formats: Some(vec![1]),
    });
    let mut body: Vec<u8> = Vec::new();
    body.extend_from_slice(b"p\0s\0");
    body.extend_from_slice(&[0, 0]);
    body.extend_from_slice(&[0, 2]);
    body.extend_from_slice(&[0, 0, 0, 4]);
    body.extend_from_slice(b"blah");
    body.extend_from_slice(&[0, 0, 0, 1]);
    body.extend_from_slice(b"4");
    body.extend_from_slice(&[0, 1, 0, 1]);
    assert_eq!(req.encode(), Some(framed(b'B', &body)));
}

#[test]
fn bind_with_nul_in_portal_is_refused() {
    let req = Request::Bind(Bind {
        portal: Some("p\0".to_string()),
        statement: None,
        values: None,
        result_formats: None,
    });
    assert_eq!(req.encode(), None);
}

#[test]
fn describe_defaults_to_statement() {
    let req = Request::Describe(Describe { variant: None, name: None });
    assert_eq!(req.encode(), Some(framed(b'D', b"S\0")));
}

#[test]
fn describe_takes_first_byte_of_variant() {
    let req = Request::Describe(Describe {
        variant: Some("Portal".to_string()),
        name: Some("c1".to_string()),
    });
    assert_eq!(req.encode(), Some(framed(b'D', b"Pc1\0")));
}

#[test]
fn describe_with_empty_variant_is_refused() {
    let req = Request::Describe(Describe { variant: Some(String::new()), name: None });
    assert_eq!(req.encode(), None);
}

#[test]
fn execute_defaults() {
    let req = Request::Execute(Execute { portal: None, max_rows: None });
    assert_eq!(req.encode(), Some(framed(b'E', b"\0\0\0\0\0")));
}

#[test]
fn execute_with_limit() {
    let req = Request::Execute(Execute { portal: Some("p".to_string()), max_rows: Some(258) });
    assert_eq!(req.encode(), Some(framed(b'E', b"p\0\0\0\x01\x02")));
}

#[test]
fn sync_copy_done_terminate_are_bare() {
    assert_eq!(Request::Sync.encode(), Some(vec![b'S', 0, 0, 0, 4]));
    assert_eq!(Request::CopyDone.encode(), Some(vec![b'c', 0, 0, 0, 4]));
    assert_eq!(Request::Terminate.encode(), Some(vec![b'X', 0, 0, 0, 4]));
}

#[test]
fn copy_data_carries_the_text_bytes() {
    let req = Request::CopyData("1\t2\n".to_string());
    assert_eq!(req.encode(), Some(framed(b'd', b"1\t2\n")));
}

#[test]
fn copy_fail_carries_the_reason() {
    let req = Request::CopyFail("nope".to_string());
    assert_eq!(req.encode(), Some(framed(b'f', b"nope\0")));
}

#[test]
fn startup_names_the_user() {
    let req = Request::Startup { user: "materialize".to_string() };
    let mut want: Vec<u8> = Vec::new();
    let body = b"\0\x03\0\0user\0materialize\0\0";
    want.extend_from_slice(&((body.len() as u32 + 4).to_be_bytes()));
    want.extend_from_slice(body);
    assert_eq!(req.encode(), Some(want));
}

#[test]
fn startup_with_nul_in_user_is_refused() {
    let req = Request::Startup { user: "a\0b".to_string() };
    assert_eq!(req.encode(), None);
}
