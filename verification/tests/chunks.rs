use arisa::media::chunks::{
    Creating, CurrentFile, FileMetadata, Metadata, Next, Payload, Receiving, Rejected, Writing,
};
use arisa::media::{store_chunks, MediaFile, MediaMode, StoredMedia};
use arisa::status::{Code, Status};

fn metadata(file_count: u32) -> Metadata {
    Metadata { channel_id: 7, file_count, mode: Some(MediaMode::Multiple) }
}

fn open(file_count: u32) -> Receiving {
    store_chunks("/tmp".to_string(), Some(Some(Payload::Metadata(metadata(file_count))))).unwrap()
}

fn file(name: &str, mime: &str, size: u64) -> FileMetadata {
    FileMetadata { file_name: name.to_string(), content_type: mime.to_string(), file_size: size }
}

fn create(upload: Receiving, size: u64, name: &str) -> Creating {
    upload.announce(file("f", "image/png", size), name).unwrap()
}

fn write(upload: Receiving, bytes: usize) -> Receiving {
    upload.accept_chunk(vec![1; bytes]).unwrap().written()
}

fn invalid(message: &str) -> Status {
    Status { code: Code::InvalidArgument, message: message.to_string() }
}

fn rejected(message: &str, remove: &[&str]) -> Rejected {
    Rejected {
        status: invalid(message),
        remove: remove.iter().map(|path| path.to_string()).collect(),
    }
}

fn looks_random(name: &str) -> bool {
    name.len() == 36
        && name.chars().enumerate().all(|(i, c)| match i {
            8 | 13 | 18 | 23 => c == '-',
            14 => c == '4',
            19 => "89ab".contains(c),
            _ => "0123456789abcdef".contains(c),
        })
}

#[test]
fn uploads_start_with_metadata() {
    let start = |first| store_chunks("/tmp".to_string(), first);
    assert_eq!(start(None), Err(invalid("metadata is required")));
    for first in [None, Some(Payload::Chunk(vec![1])), Some(Payload::FileMetadata(file("a", "b", 1)))] {
        assert_eq!(start(Some(first)), Err(invalid("the first message must be metadata")));
    }
    assert_eq!(
        start(Some(Some(Payload::Metadata(metadata(0))))),
        Err(invalid("at least one media file is required"))
    );
    let unknown = Metadata { mode: None, ..metadata(1) };
    assert_eq!(
        start(Some(Some(Payload::Metadata(unknown)))),
        Err(invalid("invalid media mode"))
    );
    let nothing = Metadata { mode: None, ..metadata(0) };
    assert_eq!(
        start(Some(Some(Payload::Metadata(nothing)))),
        Err(invalid("at least one media file is required"))
    );
    assert_eq!(
        open(3),
        Receiving {
            directory: "/tmp".to_string(),
            channel_id: 7,
            expected_count: 3,
            multiple: true,
            stored: vec![],
            current: None,
        }
    );
    let single = Metadata { mode: Some(MediaMode::Single), ..metadata(1) };
    assert!(!start(Some(Some(Payload::Metadata(single)))).unwrap().multiple);
}

#[test]
fn well_formed_uploads_are_accepted() {
    let upload = create(open(2), 5, "n0").created();
    assert_eq!(upload.current, Some(CurrentFile { expected_size: 5, received_size: 0 }));
    let upload = write(write(write(upload, 2), 0), 3);
    assert_eq!(upload.current, None);
    let upload = upload.announce(file("", " \t", 1), "n1").unwrap().created();
    let upload = write(upload, 1);
    assert_eq!(
        upload.finish(),
        Ok(StoredMedia {
            channel_id: 7,
            files: vec![
                MediaFile {
                    path: "/tmp/n0".to_string(),
                    mime: "image/png".to_string(),
                    name: Some("f".to_string()),
                },
                MediaFile {
                    path: "/tmp/n1".to_string(),
                    mime: "application/octet-stream".to_string(),
                    name: None,
                },
            ],
            multiple: true,
        })
    );
}

#[test]
fn files_are_announced_one_at_a_time() {
    let incomplete = write(create(open(2), 5, "n0").created(), 4);
    assert_eq!(
        incomplete.announce(file("g", "", 1), "n1"),
        Err(rejected("the current media file is incomplete", &["/tmp/n0"]))
    );
}

#[test]
fn there_are_no_more_files_than_announced() {
    let full = write(create(open(1), 1, "n0").created(), 1);
    assert_eq!(
        full.announce(file("g", "", 0), "n1"),
        Err(rejected("file count exceeds metadata", &["/tmp/n0"]))
    );
}

#[test]
fn empty_files_are_refused() {
    assert_eq!(
        open(1).announce(file("g", "", 0), "n0"),
        Err(rejected("media files cannot be empty", &[]))
    );
}

#[test]
fn chunks_follow_their_file() {
    assert_eq!(
        open(1).accept_chunk(vec![1]),
        Err(rejected("file metadata must precede chunks", &[]))
    );
    let complete = write(create(open(1), 1, "n0").created(), 1);
    assert_eq!(
        complete.accept_chunk(vec![]),
        Err(rejected("file metadata must precede chunks", &["/tmp/n0"]))
    );
}

#[test]
fn chunks_stay_within_the_declared_size() {
    let upload = write(create(open(1), 3, "n0").created(), 2);
    assert_eq!(
        upload.accept_chunk(vec![1, 2]),
        Err(rejected("media file exceeds its declared size", &["/tmp/n0"]))
    );
}

#[test]
fn sizes_do_not_overflow() {
    let mut upload = create(open(1), u64::MAX, "n0").created();
    upload.current = Some(CurrentFile { expected_size: u64::MAX, received_size: u64::MAX - 1 });
    assert_eq!(
        upload.accept_chunk(vec![1, 2]),
        Err(rejected("media file size overflow", &["/tmp/n0"]))
    );
}

#[test]
fn uploads_end_complete() {
    let incomplete = write(create(open(1), 3, "n0").created(), 2);
    assert_eq!(
        incomplete.finish(),
        Err(rejected("the final media file is incomplete", &["/tmp/n0"]))
    );
    let one_of_two = write(create(open(2), 1, "n0").created(), 1);
    assert_eq!(
        one_of_two.finish(),
        Err(rejected("file count does not match metadata", &["/tmp/n0"]))
    );
    assert_eq!(open(1).finish(), Err(rejected("file count does not match metadata", &[])));
}

#[test]
fn messages_are_told_apart() {
    assert_eq!(open(1).next(None), Err(rejected("request payload is required", &[])));
    assert_eq!(
        open(1).next(Some(Payload::Metadata(metadata(1)))),
        Err(rejected("metadata can only be sent once", &[]))
    );
    let upload = create(open(1), 4, "n0").created();
    match upload.next(Some(Payload::Chunk(vec![9, 8, 7]))) {
        Ok(Next::Write(Writing { chunk, expected_size: 4, received_size: 3, .. })) => {
            assert_eq!(chunk, vec![9, 8, 7]);
        }
        other => panic!("{other:?}"),
    }
}

#[test]
fn new_files_get_random_names() {
    let mut names = Vec::new();
    for _ in 0..20 {
        match open(1).next(Some(Payload::FileMetadata(file("f", "", 2)))) {
            Ok(Next::Create(creating)) => {
                assert_eq!(creating.expected_size, 2);
                let name = creating.file.path.strip_prefix("/tmp/").unwrap().to_string();
                assert!(looks_random(&name), "{name}");
                names.push(name);
            }
            other => panic!("{other:?}"),
        }
    }
    names.sort();
    names.dedup();
    assert_eq!(names.len(), 20);
}

#[test]
fn failures_remove_what_was_created() {
    let first = write(create(open(2), 1, "n0").created(), 1);
    let failed = create(first, 1, "n1").failed("disk full");
    assert_eq!(
        failed,
        Rejected {
            status: Status {
                code: Code::Internal,
                message: "failed to store media file: disk full".to_string(),
            },
            remove: vec!["/tmp/n0".to_string()],
        }
    );
    let first = write(create(open(2), 1, "n0").created(), 1);
    let second = create(first, 1, "n1").created();
    let failed = second.accept_chunk(vec![1]).unwrap().failed("gone");
    assert_eq!(failed.status.message, "failed to store media file: gone");
    assert_eq!(failed.status.code, Code::Internal);
    assert_eq!(failed.remove, vec!["/tmp/n0".to_string(), "/tmp/n1".to_string()]);
    let first = write(create(open(2), 1, "n0").created(), 1);
    assert_eq!(first.abandon(), vec!["/tmp/n0".to_string()]);
    assert!(open(1).abandon().is_empty());
}
