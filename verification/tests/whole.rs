use arisa::media::whole::{Pending, SentMedia, StoreFailure, StoreStep, Storing};
use arisa::media::{store, MediaFile};
use arisa::status::{ArisaError, Code, Status};

fn sent(data: &[u8], mime: &str, name: Option<&str>) -> SentMedia {
    SentMedia { data: data.to_vec(), mime: mime.to_string(), name: name.map(str::to_string) }
}

fn pending(step: Result<StoreStep, StoreFailure>) -> Pending {
    match step {
        Ok(StoreStep::Write(pending)) => pending,
        other => panic!("{other:?}"),
    }
}

fn start(files: Vec<SentMedia>) -> Pending {
    pending(Storing::new("/tmp".to_string(), files).unwrap().next_named("n0"))
}

#[test]
fn files_are_stored_in_order() {
    let first = start(vec![sent(b"one", "", None), sent(b"two", "text/plain", Some(""))]);
    assert_eq!(first.file.path, "/tmp/n0");
    assert_eq!(first.data, b"one");
    let second = pending(first.done().next_named("n1"));
    assert_eq!(second.file.path, "/tmp/n1");
    assert_eq!(second.data, b"two");
    assert_eq!(
        second.written(),
        Ok(StoreStep::Done(vec![
            MediaFile {
                path: "/tmp/n0".to_string(),
                mime: "application/octet-stream".to_string(),
                name: None,
            },
            MediaFile {
                path: "/tmp/n1".to_string(),
                mime: "text/plain".to_string(),
                name: Some(String::new()),
            },
        ]))
    );
}

#[test]
fn there_is_at_least_one_file() {
    assert_eq!(
        store("/tmp".to_string(), vec![]),
        Err(StoreFailure {
            error: ArisaError::InvalidArgument("at least one media file is required".to_string()),
            remove: vec![],
        })
    );
}

#[test]
fn empty_files_end_the_batch() {
    let first = start(vec![sent(b"a", "", None), sent(b"", "", None), sent(b"c", "", None)]);
    assert_eq!(
        first.written(),
        Err(StoreFailure {
            error: ArisaError::InvalidArgument("media files cannot be empty".to_string()),
            remove: vec!["/tmp/n0".to_string()],
        })
    );
    assert_eq!(
        store("/tmp".to_string(), vec![sent(b"", "", None)]),
        Err(StoreFailure {
            error: ArisaError::InvalidArgument("media files cannot be empty".to_string()),
            remove: vec![],
        })
    );
}

#[test]
fn failed_writes_remove_the_files_before() {
    let first = start(vec![sent(b"a", "", None), sent(b"b", "", None)]);
    let second = pending(first.done().next_named("n1"));
    assert_eq!(
        second.failed("no space"),
        StoreFailure {
            error: ArisaError::Internal("failed to store media file: no space".to_string()),
            remove: vec!["/tmp/n0".to_string()],
        }
    );
}

#[test]
fn files_get_random_names() {
    let files = || vec![sent(b"a", "", None), sent(b"b", "", None)];
    let first = pending(store("/tmp/".to_string(), files()));
    let name = first.file.path.strip_prefix("/tmp/").unwrap().to_string();
    assert_eq!(name.len(), 36);
    assert_eq!(name.as_bytes()[14], b'4');
    assert_eq!(name.matches('-').count(), 4);
    let second = pending(first.written());
    assert_ne!(second.file.path.strip_prefix("/tmp/").unwrap(), name);
    assert_eq!(second.stored.len(), 1);
}

#[test]
fn errors_become_answers() {
    assert_eq!(
        Status::from(ArisaError::InvalidArgument("a".to_string())),
        Status { code: Code::InvalidArgument, message: "a".to_string() }
    );
    assert_eq!(
        Status::from(ArisaError::Internal("b".to_string())),
        Status { code: Code::Internal, message: "b".to_string() }
    );
}
