use uploader::session::{Action, Event, UploadError, UploadSession};

fn file(name: &str) -> Event {
    Event::FileField { original: name.to_string() }
}

/// Feeds one file field through, read and written without fault, and
/// returns the name it was written under.
fn upload_one(s: &mut UploadSession, original: &str, id: u128) -> String {
    assert!(matches!(s.step_with_id(file(original), id), Action::ReadBody));
    let name = match s.step_with_id(Event::BodyReceived, 0) {
        Action::Write { name } => name,
        other => panic!("expected a write, got {:?}", other),
    };
    assert!(matches!(s.step_with_id(Event::Written, 0), Action::NextField));
    name
}

#[test]
fn files_are_listed_in_field_order() {
    let mut s = UploadSession::new();
    let a = upload_one(&mut s, "a.png", 1);
    let b = upload_one(&mut s, "b.jpg", 2);
    let c = upload_one(&mut s, "c", 3);
    assert_eq!(a, "00000000-0000-0000-0000-000000000001.png");
    assert_eq!(b, "00000000-0000-0000-0000-000000000002.jpg");
    assert_eq!(c, "00000000-0000-0000-0000-000000000003.unknown");
    match s.step_with_id(Event::NoMoreFields, 0) {
        Action::Respond(Ok(resp)) => {
            assert_eq!(resp.message, "Files uploaded successfully");
            assert_eq!(resp.filenames, vec![a, b, c]);
        }
        other => panic!("expected success, got {:?}", other),
    }
    assert!(s.is_finished());
}

#[test]
fn plain_fields_are_skipped() {
    let mut s = UploadSession::new();
    assert!(matches!(s.step_with_id(Event::PlainField, 0), Action::NextField));
    let a = upload_one(&mut s, "x.gif", 7);
    assert!(matches!(s.step_with_id(Event::PlainField, 0), Action::NextField));
    match s.step_with_id(Event::NoMoreFields, 0) {
        Action::Respond(Ok(resp)) => assert_eq!(resp.filenames, vec![a]),
        other => panic!("expected success, got {:?}", other),
    }
}

#[test]
fn only_plain_fields_is_bad_request() {
    let mut s = UploadSession::new();
    assert!(matches!(s.step(Event::PlainField), Action::NextField));
    assert!(matches!(s.step(Event::PlainField), Action::NextField));
    assert!(matches!(
        s.step(Event::NoMoreFields),
        Action::Respond(Err(UploadError::BadRequest))
    ));
}

#[test]
fn empty_body_is_bad_request() {
    let mut s = UploadSession::new();
    assert!(matches!(
        s.step(Event::NoMoreFields),
        Action::Respond(Err(UploadError::BadRequest))
    ));
    assert!(s.is_finished());
}

#[test]
fn malformed_stream_ends_with_what_was_saved() {
    let mut s = UploadSession::new();
    let a = upload_one(&mut s, "one.txt", 5);
    match s.step_with_id(Event::MalformedStream, 0) {
        Action::Respond(Ok(resp)) => assert_eq!(resp.filenames, vec![a]),
        other => panic!("expected success, got {:?}", other),
    }
    let mut t = UploadSession::new();
    assert!(matches!(
        t.step(Event::MalformedStream),
        Action::Respond(Err(UploadError::BadRequest))
    ));
}

#[test]
fn failed_body_read_is_bad_request() {
    let mut s = UploadSession::new();
    upload_one(&mut s, "first.png", 1);
    assert!(matches!(s.step_with_id(file("second.png"), 2), Action::ReadBody));
    assert!(matches!(
        s.step_with_id(Event::BodyFailed, 0),
        Action::Respond(Err(UploadError::BadRequest))
    ));
    assert!(s.is_finished());
}

#[test]
fn failed_write_is_internal_error() {
    let mut s = UploadSession::new();
    assert!(matches!(s.step_with_id(file("a.png"), 1), Action::ReadBody));
    assert!(matches!(s.step_with_id(Event::BodyReceived, 0), Action::Write { .. }));
    assert!(matches!(
        s.step_with_id(Event::WriteFailed, 0),
        Action::Respond(Err(UploadError::InternalServerError))
    ));
}

#[test]
fn error_status_codes() {
    assert_eq!(UploadError::BadRequest.status_code(), 400);
    assert_eq!(UploadError::InternalServerError.status_code(), 500);
}

#[test]
fn events_out_of_turn_are_not_accepted() {
    let mut s = UploadSession::new();
    assert!(s.accepts(&Event::PlainField));
    assert!(!s.accepts(&Event::BodyReceived));
    assert!(!s.accepts(&Event::Written));
    s.step(file("a.png"));
    assert!(s.accepts(&Event::BodyFailed));
    assert!(!s.accepts(&Event::NoMoreFields));
    s.step(Event::BodyReceived);
    assert!(s.accepts(&Event::WriteFailed));
    assert!(!s.accepts(&file("b.png")));
    s.step(Event::WriteFailed);
    assert!(!s.accepts(&Event::PlainField));
}

#[test]
fn same_original_name_in_two_sessions_gives_distinct_names() {
    let mut s = UploadSession::new();
    let mut t = UploadSession::new();
    s.step(file("photo.png"));
    t.step(file("photo.png"));
    let a = match s.step(Event::BodyReceived) {
        Action::Write { name } => name,
        other => panic!("expected a write, got {:?}", other),
    };
    let b = match t.step(Event::BodyReceived) {
        Action::Write { name } => name,
        other => panic!("expected a write, got {:?}", other),
    };
    assert_ne!(a, b);
    assert!(a.ends_with(".png") && b.ends_with(".png"));
    assert_eq!(a.len(), 40);
}

#[test]
fn empty_file_is_listed_like_any_other() {
    let mut s = UploadSession::new();
    let a = upload_one(&mut s, "empty.bin", 9);
    match s.step_with_id(Event::NoMoreFields, 0) {
        Action::Respond(Ok(resp)) => assert_eq!(resp.filenames, vec![a]),
        other => panic!("expected success, got {:?}", other),
    }
}
