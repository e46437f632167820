use std::sync::Arc;
use urlnao::db::{register_upload, try_get_sha_and_orig};
use urlnao::error::UploadError;
use urlnao::file::{get_sha256_of_file, FileInfo};
use urlnao::pipeline::{Action, Event, Phase, Step, UploadSession};
use urlnao::store::Store;

fn session(name: &str, uuid: &str) -> UploadSession {
    UploadSession::begin(FileInfo { original_filename: Arc::from(name), uuid: Arc::from(uuid) })
}

fn next(step: Step) -> (UploadSession, Action) {
    match step {
        Step::Next { session, action } => (session, action),
        Step::Done { outcome } => panic!("the upload is over: {:?}", outcome),
    }
}

fn done(step: Step) -> Result<String, UploadError> {
    match step {
        Step::Done { outcome } => outcome,
        Step::Next { .. } => panic!("the upload goes on"),
    }
}

#[test]
fn new_content_is_moved_then_registered() {
    let s = session("greeting.txt", "u-1");
    assert_eq!(s.phase(), Phase::Staging);
    assert_eq!(s.staged_path(), "tmp/u-1");

    let (s, action) = next(s.advance(Event::StreamEnded { received: 5 }));
    assert_eq!(s.phase(), Phase::Hashing);
    assert!(matches!(action, Action::Digest { staged } if staged == "tmp/u-1"));

    let (s, action) = next(s.advance(Event::Digested { outcome: Ok("c0ffee".to_string()) }));
    assert_eq!(s.phase(), Phase::Publishing);
    assert!(matches!(action, Action::Probe { blob } if blob == "uploads/c0ffee"));

    let (s, action) = next(s.advance(Event::Probed { present: false }));
    assert_eq!(s.phase(), Phase::Moving);
    assert!(matches!(action, Action::Move { from, to } if from == "tmp/u-1" && to == "uploads/c0ffee"));

    let (s, action) = next(s.advance(Event::Moved));
    assert_eq!(s.phase(), Phase::Registering);
    assert!(matches!(
        action,
        Action::Register { checksum, filename } if checksum == "c0ffee" && filename == "greeting.txt"
    ));

    assert_eq!(done(s.advance(Event::Registered { outcome: Ok("aB3".to_string()) })), Ok("aB3".to_string()));
}

#[test]
fn published_content_is_kept_and_the_staged_file_removed() {
    let s = session("again.txt", "u-2");
    let (s, _) = next(s.advance(Event::StreamEnded { received: 1 }));
    let (s, _) = next(s.advance(Event::Digested { outcome: Ok("c0ffee".to_string()) }));
    let (s, action) = next(s.advance(Event::Probed { present: true }));
    assert_eq!(s.phase(), Phase::Dropping);
    assert!(matches!(action, Action::Discard { staged } if staged == "tmp/u-2"));
    let (s, action) = next(s.advance(Event::Discarded { removed: false }));
    assert_eq!(s.phase(), Phase::Registering);
    assert!(matches!(
        action,
        Action::Register { checksum, filename } if checksum == "c0ffee" && filename == "again.txt"
    ));
    assert_eq!(
        done(s.advance(Event::Registered { outcome: Err(UploadError::AllocationExhausted) })),
        Err(UploadError::AllocationExhausted)
    );
}

#[test]
fn empty_upload_is_rejected_before_hashing() {
    let s = session("empty.txt", "u-3");
    let (s, action) = next(s.advance(Event::StreamEnded { received: 0 }));
    assert_eq!(s.phase(), Phase::Failing);
    assert!(matches!(action, Action::Discard { staged } if staged == "tmp/u-3"));
    assert_eq!(done(s.advance(Event::Discarded { removed: true })), Err(UploadError::EmptyUpload));
}

#[test]
fn empty_staged_file_is_rejected_when_read_back() {
    let s = session("empty.txt", "u-4");
    let (s, _) = next(s.advance(Event::StreamEnded { received: 3 }));
    let (s, action) = next(s.advance(Event::Digested { outcome: get_sha256_of_file(b"") }));
    assert_eq!(s.phase(), Phase::Failing);
    assert!(matches!(action, Action::Discard { staged } if staged == "tmp/u-4"));
    assert_eq!(done(s.advance(Event::Discarded { removed: true })), Err(UploadError::EmptyUpload));
}

#[test]
fn failures_of_the_driver_end_the_upload_as_io_errors() {
    let (s, action) = next(session("a", "u-5").advance(Event::StreamFailed));
    assert!(matches!(action, Action::Discard { staged } if staged == "tmp/u-5"));
    assert_eq!(done(s.advance(Event::Discarded { removed: true })), Err(UploadError::IoError));

    let (s, _) = next(session("a", "u-6").advance(Event::StreamEnded { received: 9 }));
    let (s, action) = next(s.advance(Event::ReadFailed));
    assert!(matches!(action, Action::Discard { staged } if staged == "tmp/u-6"));
    assert_eq!(done(s.advance(Event::Discarded { removed: true })), Err(UploadError::IoError));

    let (s, _) = next(session("a", "u-7").advance(Event::StreamEnded { received: 9 }));
    let (s, _) = next(s.advance(Event::Digested { outcome: Ok("c0ffee".to_string()) }));
    let (s, _) = next(s.advance(Event::Probed { present: false }));
    let (s, action) = next(s.advance(Event::MoveFailed));
    assert_eq!(s.phase(), Phase::Failing);
    assert!(matches!(action, Action::Discard { staged } if staged == "tmp/u-7"));
    assert_eq!(done(s.advance(Event::Discarded { removed: true })), Err(UploadError::IoError));
}

#[test]
fn events_out_of_turn_fail_the_upload() {
    let (s, action) = next(session("a", "u-8").advance(Event::Moved));
    assert_eq!(s.phase(), Phase::Failing);
    assert!(matches!(action, Action::Discard { .. }));
    assert_eq!(done(s.advance(Event::Moved)), Err(UploadError::IoError));

    let (s, _) = next(session("a", "u-9").advance(Event::StreamEnded { received: 9 }));
    let (s, action) = next(s.advance(Event::Registered { outcome: Ok("abc".to_string()) }));
    assert_eq!(s.phase(), Phase::Failing);
    assert!(matches!(action, Action::Discard { .. }));
    assert_eq!(done(s.advance(Event::Discarded { removed: true })), Err(UploadError::IoError));

    let (s, _) = next(session("a", "u-10").advance(Event::StreamEnded { received: 9 }));
    let (s, _) = next(s.advance(Event::Digested { outcome: Ok("c0ffee".to_string()) }));
    let (s, _) = next(s.advance(Event::Probed { present: false }));
    let (s, _) = next(s.advance(Event::Moved));
    assert_eq!(done(s.advance(Event::Moved)), Err(UploadError::IoError));
}

#[test]
fn a_driven_upload_resolves() {
    let mut db = Store::temporary().unwrap();
    let content = b"hello";
    let (s, _) = next(session("greeting.txt", "u-11").advance(Event::StreamEnded { received: 5 }));
    let (s, _) = next(s.advance(Event::Digested { outcome: get_sha256_of_file(content) }));
    let (s, _) = next(s.advance(Event::Probed { present: false }));
    let (s, action) = next(s.advance(Event::Moved));
    let outcome = match action {
        Action::Register { checksum, filename } => register_upload(&mut db, &checksum, &filename),
        _ => panic!("the registration is due"),
    };
    let id = done(s.advance(Event::Registered { outcome })).unwrap();
    assert_eq!(
        try_get_sha_and_orig(&db, id.as_bytes()),
        Ok((
            "2cf24dba5fb0a30e26e83b2ac5b9e29e1b161e5c1fa7425e73043362938b9824".to_string(),
            "greeting.txt".to_string()
        ))
    );
}
