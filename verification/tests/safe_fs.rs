use secrets_manager::effects::{Progress, Reply, Request};
use secrets_manager::safe_fs::{safe_write, same_bytes, SafeFsError, SafeWrite};

/// One file that may be absent, served as a faithful file system would.
fn run(file: &mut Option<Vec<u8>>, content: &[u8]) -> Result<(), SafeFsError> {
    let (machine, request) = safe_write("tgt/db.key", content.to_vec());
    let mut progress: Progress<SafeWrite, SafeFsError> = Progress::Ask(machine, request);
    loop {
        match progress {
            Progress::Finished(result) => return result,
            Progress::Ask(machine, request) => {
                let reply = match request {
                    Request::Exists { path } => {
                        assert_eq!(path, "tgt/db.key");
                        Reply::Flag(file.is_some())
                    }
                    Request::Read { path } => {
                        assert_eq!(path, "tgt/db.key");
                        Reply::Bytes(file.clone().unwrap())
                    }
                    Request::Write { path, content } => {
                        assert_eq!(path, "tgt/db.key");
                        *file = Some(content);
                        Reply::Done
                    }
                    other => panic!("unexpected request {:?}", other),
                };
                progress = machine.resume(reply);
            }
        }
    }
}

#[test]
fn safe_write_creates_a_missing_file() {
    let mut file = None;
    assert_eq!(run(&mut file, b"X"), Ok(()));
    assert_eq!(file, Some(b"X".to_vec()));
}

#[test]
fn safe_write_twice_with_the_same_content_succeeds_and_changes_nothing() {
    let mut file = None;
    assert_eq!(run(&mut file, b"X"), Ok(()));
    assert_eq!(run(&mut file, b"X"), Ok(()));
    assert_eq!(file, Some(b"X".to_vec()));
}

#[test]
fn safe_write_with_other_content_fails_and_leaves_the_file() {
    let mut file = None;
    assert_eq!(run(&mut file, b"X"), Ok(()));
    assert_eq!(
        run(&mut file, b"Y"),
        Err(SafeFsError::ContentMismatch("tgt/db.key".to_owned()))
    );
    assert_eq!(file, Some(b"X".to_vec()));
}

#[test]
fn safe_write_never_asks_to_write_an_existing_file() {
    let (machine, _) = safe_write("tgt/db.key", b"X".to_vec());
    match machine.resume(Reply::Flag(true)) {
        Progress::Ask(_, request) => {
            assert_eq!(request, Request::Read { path: "tgt/db.key".to_owned() })
        }
        Progress::Finished(result) => panic!("finished early: {:?}", result),
    }
}

#[test]
fn safe_write_reports_an_unreadable_existing_file() {
    let (machine, _) = safe_write("tgt/db.key", b"X".to_vec());
    let machine = match machine.resume(Reply::Flag(true)) {
        Progress::Ask(machine, _) => machine,
        Progress::Finished(result) => panic!("finished early: {:?}", result),
    };
    match machine.resume(Reply::Failed("denied".to_owned())) {
        Progress::Finished(result) => assert_eq!(
            result,
            Err(SafeFsError::ReadExisting("tgt/db.key".to_owned(), "denied".to_owned()))
        ),
        Progress::Ask(_, request) => panic!("still asking: {:?}", request),
    }
}

#[test]
fn safe_write_reports_a_failed_write() {
    let (machine, _) = safe_write("tgt/db.key", b"X".to_vec());
    let machine = match machine.resume(Reply::Flag(false)) {
        Progress::Ask(machine, request) => {
            assert_eq!(
                request,
                Request::Write { path: "tgt/db.key".to_owned(), content: b"X".to_vec() }
            );
            machine
        }
        Progress::Finished(result) => panic!("finished early: {:?}", result),
    };
    match machine.resume(Reply::Failed("full".to_owned())) {
        Progress::Finished(result) => assert_eq!(
            result,
            Err(SafeFsError::Write("tgt/db.key".to_owned(), "full".to_owned()))
        ),
        Progress::Ask(_, request) => panic!("still asking: {:?}", request),
    }
}

#[test]
fn same_bytes_compares_byte_by_byte() {
    assert!(same_bytes(&vec![], &vec![]));
    assert!(same_bytes(&vec![1, 2, 3], &vec![1, 2, 3]));
    assert!(!same_bytes(&vec![1, 2, 3], &vec![1, 2, 4]));
    assert!(!same_bytes(&vec![1, 2, 3], &vec![1, 2]));
}
