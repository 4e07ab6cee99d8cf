use arisa::media::chunks::{Metadata, Payload, Rejected};
use arisa::media::whole::{SentMedia, StoreStep};
use arisa::media::{MediaFile, MediaMode, StoredMedia};
use arisa::service::{
    answer, blocking, enqueue, forward_event, Action, ArisaService, EnterChannelRequest,
    MarkReadRequest, MediaTarget, RawQuery, RawQueryRequest, ReplyRequest, SendMediaRequest,
};
use arisa::status::{Code, Status};

fn service() -> ArisaService {
    ArisaService::new("/data/app".to_string(), "/tmp".to_string())
}

fn status(code: Code, message: &str) -> Status {
    Status { code, message: message.to_string() }
}

fn sent(data: &[u8]) -> SentMedia {
    SentMedia { data: data.to_vec(), mime: "a/b".to_string(), name: None }
}

fn stored(path: &str) -> MediaFile {
    MediaFile { path: path.to_string(), mime: "a/b".to_string(), name: None }
}

#[test]
fn a_service_knows_its_directories() {
    assert_eq!(service().app_path, "/data/app");
    assert_eq!(service().temp_dir, "/tmp");
}

#[test]
fn requests_become_actions() {
    let request = ReplyRequest { channel_id: 1, message: "hi".to_string(), thread_id: Some(3) };
    assert_eq!(
        service().reply(request),
        Action::Reply { channel_id: 1, message: "hi".to_string(), thread_id: Some(3) }
    );
    assert_eq!(
        service().mark_read(MarkReadRequest { channel_id: 2 }),
        Action::MarkRead { channel_id: 2 }
    );
    assert_eq!(
        service().enter_channel(EnterChannelRequest { channel_id: -4 }),
        Action::EnterChannel { channel_id: -4 }
    );
}

#[test]
fn media_is_stored_then_sent() {
    let request =
        SendMediaRequest { channel_id: 5, files: vec![sent(b"x")], mode: Some(MediaMode::Single) };
    let (target, step) = service().send_media(request).unwrap();
    assert_eq!(target, MediaTarget { channel_id: 5, multiple: false });
    let pending = match step {
        StoreStep::Write(pending) => pending,
        other => panic!("{other:?}"),
    };
    assert_eq!(pending.data, b"x");
    let path = pending.file.path.clone();
    assert!(path.starts_with("/tmp/"));
    assert_eq!(path.len(), 41);
    let files = match pending.written() {
        Ok(StoreStep::Done(files)) => files,
        other => panic!("{other:?}"),
    };
    assert_eq!(
        target.action(files),
        Action::SendMedia { channel_id: 5, files: vec![stored(&path)], multiple: false }
    );
}

#[test]
fn media_requests_are_checked() {
    let send = |files, mode| service().send_media(SendMediaRequest { channel_id: 5, files, mode });
    let refused = |message: &str| Rejected {
        status: status(Code::InvalidArgument, message),
        remove: vec![],
    };
    assert_eq!(send(vec![], None), Err(refused("invalid media mode")));
    assert_eq!(
        send(vec![], Some(MediaMode::Multiple)),
        Err(refused("at least one media file is required"))
    );
    assert_eq!(
        send(vec![sent(b"")], Some(MediaMode::Multiple)),
        Err(refused("media files cannot be empty"))
    );
    let (target, _) = send(vec![sent(b"1")], Some(MediaMode::Multiple)).unwrap();
    assert!(target.multiple);
}

#[test]
fn chunked_media_is_sent_to_its_channel() {
    let metadata = Metadata { channel_id: 8, file_count: 1, mode: Some(MediaMode::Multiple) };
    let upload = service().send_media_by_chunk(Some(Some(Payload::Metadata(metadata)))).unwrap();
    assert_eq!(upload.directory, "/tmp");
    assert_eq!(
        service().send_media_by_chunk(None),
        Err(status(Code::InvalidArgument, "metadata is required"))
    );
    let media = StoredMedia { channel_id: 8, files: vec![stored("/tmp/a")], multiple: true };
    assert_eq!(
        media.into_action(),
        Action::SendMedia { channel_id: 8, files: vec![stored("/tmp/a")], multiple: true }
    );
}

#[test]
fn queries_are_checked_and_limited() {
    let query = |sql: &str, limit| {
        service().raw_query(RawQueryRequest { sql: sql.to_string(), limit })
    };
    for blank in ["", "  ", "\n\t\u{a0}"] {
        assert_eq!(
            query(blank, Some(5)),
            Err(status(Code::InvalidArgument, "sql cannot be empty"))
        );
    }
    for (asked, given) in [
        (None, 100),
        (Some(0), 1),
        (Some(-20), 1),
        (Some(1), 1),
        (Some(77), 77),
        (Some(10_000), 10_000),
        (Some(10_001), 10_000),
        (Some(i64::MAX), 10_000),
    ] {
        assert_eq!(
            query(" select 1 ", asked),
            Ok(RawQuery { sql: " select 1 ".to_string(), limit: given })
        );
    }
}

#[test]
fn outcomes_become_answers() {
    assert_eq!(enqueue(Ok(())), Ok(()));
    assert_eq!(enqueue(Err("full".to_string())), Err(status(Code::Unavailable, "full")));
    assert_eq!(answer(Ok::<i32, String>(3)), Ok(3));
    assert_eq!(answer(Err::<i32, String>("e".to_string())), Err(status(Code::Internal, "e")));
    assert_eq!(blocking(Ok(Ok(3))), Ok(3));
    assert_eq!(
        blocking::<i32>(Ok(Err("no such row".to_string()))),
        Err(status(Code::Internal, "no such row"))
    );
    assert_eq!(
        blocking::<i32>(Err("panicked".to_string())),
        Err(status(Code::Internal, "database task failed: panicked"))
    );
    assert_eq!(forward_event::<i32, &str>(Ok(1)), Some(Ok(1)));
    assert_eq!(forward_event::<i32, &str>(Err("lagged")), None);
}
