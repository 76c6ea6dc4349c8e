use pgtest::conn::{Handshake, PgConn, Step};
use pgtest::request::Request;
use pgtest::session::PgTest;
use pgtest::wait::Wait;

const SECOND: u128 = 1_000_000_000;

fn framed(tag: u8, body: &[u8]) -> Vec<u8> {
    let mut out = vec![tag];
    out.extend_from_slice(&((body.len() as u32 + 4).to_be_bytes()));
    out.extend_from_slice(body);
    out
}

fn shake(mut h: Handshake) -> PgConn {
    h.feed(&framed(b'R', &[0, 0, 0, 0]));
    h.feed(&framed(b'Z', b"I"));
    while !matches!(h.step(0), Step::Done) {}
    match h.finish() {
        Ok(conn) => conn,
        Err(_) => panic!("handshake not complete"),
    }
}

fn names(s: &PgTest) -> Vec<String> {
    (0..s.len()).map(|at| s.name_at(at).unwrap().clone()).collect()
}

fn session() -> PgTest {
    let default = shake(Handshake::start("u", SECOND, true).unwrap());
    PgTest::new("localhost:6875".to_string(), "u".to_string(), SECOND, true, default)
}

#[test]
fn new_session_has_the_default_connection() {
    let s = session();
    assert_eq!(names(&s), vec![String::new()]);
    assert_eq!(s.get_conn(&None), Some(0));
    assert_eq!(s.get_conn(&Some(String::new())), Some(0));
    assert_eq!(s.addr(), "localhost:6875");
    assert!(s.verbose());
}

#[test]
fn a_new_name_has_no_connection_until_one_is_attached() {
    let mut s = session();
    let name = Some("secondary".to_string());
    assert_eq!(s.get_conn(&name), None);
    let h = s.begin().expect("startup");
    assert_eq!(h.outgoing_bytes(), &Request::Startup { user: "u".to_string() }.encode().unwrap()[..]);
    assert_eq!(h.timeout(), SECOND);
    let conn = shake(h);
    assert!(matches!(s.attach(name.clone(), conn), Ok(1)));
    assert_eq!(s.get_conn(&name), Some(1));
    assert_eq!(s.get_conn(&None), Some(0));
}

#[test]
fn a_name_is_attached_once() {
    let mut s = session();
    let first = shake(s.begin().unwrap());
    assert!(s.attach(Some("a".to_string()), first).is_ok());
    let second = shake(s.begin().unwrap());
    assert!(s.attach(Some("a".to_string()), second).is_err());
    let third = shake(s.begin().unwrap());
    assert!(s.attach(None, third).is_err());
    assert_eq!(s.len(), 2);
}

#[test]
fn names_stand_in_order() {
    let mut s = session();
    for name in ["m", "b", "z", "a", "ma"] {
        let conn = shake(s.begin().unwrap());
        assert!(s.attach(Some(name.to_string()), conn).is_ok());
    }
    let want: Vec<String> = ["", "a", "b", "m", "ma", "z"].iter().map(|s| s.to_string()).collect();
    assert_eq!(names(&s), want);
    assert_eq!(s.get_conn(&Some("ma".to_string())), Some(4));
}

#[test]
fn connections_are_independent() {
    let mut s = session();
    let conn = shake(s.begin().unwrap());
    let at = s.attach(Some("secondary".to_string()), conn).ok().unwrap();
    assert_eq!(s.send(at, &Request::Sync), Some(true));
    assert_eq!(s.outgoing_bytes(at), Some(&[b'S', 0, 0, 0, 4][..]));
    assert_eq!(s.outgoing_bytes(0), Some(&Request::Startup { user: "u".to_string() }.encode().unwrap()[..]));
    assert!(s.feed(at, &framed(b'Z', b"T")));
    let mut on_default = Wait::new(vec!["ReadyForQuery".to_string()], vec![], vec![]);
    assert!(matches!(s.until(0, &mut on_default, 0), Some(Step::NeedBytes)));
    let mut on_secondary = Wait::new(vec!["ReadyForQuery".to_string()], vec![], vec![]);
    assert!(matches!(s.until(at, &mut on_secondary, 0), Some(Step::Done)));
    assert_eq!(on_secondary.trace(), &vec!["ReadyForQuery {\"status\":\"T\"}".to_string()]);
}

#[test]
fn close_says_farewell_on_every_connection() {
    let mut s = session();
    let conn = shake(s.begin().unwrap());
    assert!(s.attach(Some("b".to_string()), conn).is_ok());
    s.close();
    assert_eq!(s.len(), 2);
    for at in 0..s.len() {
        assert_eq!(s.outgoing_bytes(at), Some(&[b'X', 0, 0, 0, 4][..]));
    }
}

#[test]
fn a_place_without_a_connection_is_refused() {
    let mut s = session();
    assert_eq!(s.send(1, &Request::Sync), None);
    assert_eq!(s.outgoing_bytes(1), None);
    assert!(!s.feed(1, &[1, 2, 3]));
    let mut wait = Wait::new(vec![], vec![], vec![]);
    assert!(s.until(1, &mut wait, 0).is_none());
    assert_eq!(s.name_at(1), None);
    assert_eq!(s.name_at(0), Some(&String::new()));
}

#[test]
fn a_request_that_cannot_be_encoded_is_not_sent() {
    let mut s = session();
    let bad = Request::CopyFail("a\0b".to_string());
    assert_eq!(s.send(0, &bad), Some(false));
    assert_eq!(s.outgoing_bytes(0), Some(&[][..]));
}
