use pgtest::wait::{holds_text, Wait};
use pgtest::wire::Frame;

fn wait_for(targets: &[&str], ignore: &[&str]) -> Wait {
    Wait::new(
        targets.iter().map(|s| s.to_string()).collect(),
        vec!['C', 'S', 'M'],
        ignore.iter().map(|s| s.to_string()).collect(),
    )
}

#[test]
fn fresh_wait_awaits_its_first_target() {
    let w = wait_for(&["ReadyForQuery"], &[]);
    assert!(!w.is_done());
    assert_eq!(w.expecting(), Some(&"ReadyForQuery".to_string()));
    assert!(w.trace().is_empty());
}

#[test]
fn wait_without_targets_is_done() {
    let w = wait_for(&[], &[]);
    assert!(w.is_done());
    assert_eq!(w.expecting(), None);
}

#[test]
fn frames_are_recorded_until_the_target_is_seen() {
    let mut w = wait_for(&["ReadyForQuery"], &[]);
    w.observe(&Frame::ParseComplete, '1').unwrap();
    assert!(!w.is_done());
    w.observe(&Frame::ReadyForQuery { status: b'I' }, 'Z').unwrap();
    assert!(w.is_done());
    assert_eq!(w.trace(), &vec!["ParseComplete".to_string(), "ReadyForQuery {\"status\":\"I\"}".to_string()]);
}

#[test]
fn targets_are_seen_in_order() {
    let mut w = wait_for(&["CommandComplete", "ReadyForQuery"], &[]);
    // a ready-for-query before the command completion is recorded, not counted
    w.observe(&Frame::ReadyForQuery { status: b'I' }, 'Z').unwrap();
    assert_eq!(w.expecting(), Some(&"CommandComplete".to_string()));
    w.observe(&Frame::CommandComplete { tag: Some("SELECT 1".to_string()) }, 'C').unwrap();
    assert_eq!(w.expecting(), Some(&"ReadyForQuery".to_string()));
    w.observe(&Frame::ReadyForQuery { status: b'T' }, 'Z').unwrap();
    assert!(w.is_done());
    assert_eq!(w.trace().len(), 3);
}

#[test]
fn parameter_status_is_dropped_even_as_a_target() {
    let mut w = wait_for(&["ParameterStatus"], &[]);
    w.observe(&Frame::ParameterStatus, 'S').unwrap();
    assert!(!w.is_done());
    assert!(w.trace().is_empty());
}

#[test]
fn ignored_labels_stay_out_of_the_trace() {
    let mut w = wait_for(&["ReadyForQuery"], &["NoticeResponse"]);
    w.observe(&Frame::NoticeResponse { fields: Some(vec![(b'M', b"hi".to_vec())]) }, 'N').unwrap();
    assert!(w.trace().is_empty());
    assert!(!w.is_done());
    w.observe(&Frame::ReadyForQuery { status: b'I' }, 'Z').unwrap();
    assert!(w.is_done());
    assert_eq!(w.trace(), &vec!["ReadyForQuery {\"status\":\"I\"}".to_string()]);
}

#[test]
fn an_ignored_target_is_never_seen() {
    let mut w = wait_for(&["ReadyForQuery"], &["ReadyForQuery"]);
    w.observe(&Frame::ReadyForQuery { status: b'I' }, 'Z').unwrap();
    assert!(!w.is_done());
    assert!(w.trace().is_empty());
}

#[test]
fn unreadable_frame_leaves_the_wait_as_it_was() {
    let mut w = wait_for(&["ReadyForQuery"], &[]);
    w.observe(&Frame::ParseComplete, '1').unwrap();
    assert!(w.observe(&Frame::DataRow { values: None }, 'D').is_err());
    assert_eq!(w.trace(), &vec!["ParseComplete".to_string()]);
    assert!(!w.is_done());
}

#[test]
fn at_most_one_match_for_each_target() {
    let mut w = wait_for(&["DataRow", "DataRow"], &[]);
    for _ in 0..2 {
        assert!(!w.is_done());
        w.observe(&Frame::DataRow { values: Some(vec![]) }, 'D').unwrap();
    }
    assert!(w.is_done());
    assert_eq!(w.trace().len(), 2);
}

#[test]
fn list_membership() {
    let list = vec!["a".to_string(), "NoticeResponse".to_string()];
    assert!(holds_text(&list, &"NoticeResponse".to_string()));
    assert!(!holds_text(&list, &"Notice".to_string()));
}
