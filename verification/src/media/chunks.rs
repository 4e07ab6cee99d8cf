//! Uploads that arrive message by message.
//!
//! An upload starts with its metadata. Each file is announced by its own metadata
//! and then sent in chunks, up to the size that was announced. The types follow the
//! upload: [`Receiving`] waits for a message, [`Creating`] for a new file to be
//! created, [`Writing`] for a chunk to be written.

use vstd::prelude::*;
use vstd::string::*;

use crate::media::{
    effective_mime, mime_or_default, paths, paths_of, storage_error, storage_failure, MediaFile,
    MediaFileView, MediaMode, StoredMedia, StoredMediaView,
};
use crate::names::{fresh_name, is_random_uuid, lemma_random_uuids_exist};
use crate::status::{internal, invalid_argument, result_view, Code, Status, StatusView};
use crate::text::{is_white_space, join_path, joined};

verus! {

// ---------------------------------------------------------------------------
// Messages
// ---------------------------------------------------------------------------

/// What the sender says of an upload as a whole.
#[derive(Clone, Copy, Debug, PartialEq, Eq, Structural)]
pub struct Metadata {
    pub channel_id: i64,
    pub file_count: u32,
    /// `None` where the sender's number stands for no mode.
    pub mode: Option<MediaMode>,
}

/// What the sender says of a file before sending it.
#[derive(Debug, PartialEq, Eq)]
pub struct FileMetadata {
    pub file_name: String,
    pub content_type: String,
    pub file_size: u64,
}

/// What a [`FileMetadata`] holds.
pub struct FileMetadataView {
    pub file_name: Seq<char>,
    pub content_type: Seq<char>,
    pub file_size: u64,
}

impl View for FileMetadata {
    type V = FileMetadataView;

    open spec fn view(&self) -> FileMetadataView {
        FileMetadataView {
            file_name: self.file_name@,
            content_type: self.content_type@,
            file_size: self.file_size,
        }
    }
}

/// What a message of an upload carries.
#[derive(Debug, PartialEq, Eq)]
pub enum Payload {
    Metadata(Metadata),
    FileMetadata(FileMetadata),
    Chunk(Vec<u8>),
}

/// What a [`Payload`] holds.
pub enum PayloadView {
    Metadata(Metadata),
    FileMetadata(FileMetadataView),
    Chunk(Seq<u8>),
}

impl DeepView for Payload {
    type V = PayloadView;

    open spec fn deep_view(&self) -> PayloadView {
        match self {
            Payload::Metadata(metadata) => PayloadView::Metadata(*metadata),
            Payload::FileMetadata(file) => PayloadView::FileMetadata(file@),
            Payload::Chunk(chunk) => PayloadView::Chunk(chunk@),
        }
    }
}

// ---------------------------------------------------------------------------
// The model of an upload
// ---------------------------------------------------------------------------

/// A file of which some bytes are still to come.
#[derive(Clone, Copy, Debug, PartialEq, Eq, Structural)]
pub struct CurrentFile {
    pub expected_size: u64,
    pub received_size: u64,
}

/// An upload between two messages.
pub struct Upload {
    pub directory: Seq<char>,
    pub channel_id: i64,
    pub expected_count: nat,
    pub multiple: bool,
    /// The files created so far, in order.
    pub stored: Seq<MediaFileView>,
    /// The last of them, where it is incomplete.
    pub current: Option<CurrentFile>,
}

/// An upload that goes on once the file has been created.
pub struct Creation {
    pub upload: Upload,
    pub file: MediaFileView,
    pub expected_size: u64,
}

/// An upload that goes on once the chunk has been written.
pub struct Write {
    pub upload: Upload,
    pub chunk: Seq<u8>,
    pub expected_size: u64,
    pub received_size: u64,
}

/// What a message asks for.
pub enum Task {
    Create(Creation),
    Write(Write),
}

/// The end of an upload that failed: the answer, and the files to remove.
pub struct Refusal {
    pub status: StatusView,
    pub remove: Seq<Seq<char>>,
}

/// The file that `file` announces, stored at `path`.
pub open spec fn stored_file(file: FileMetadataView, path: Seq<char>) -> MediaFileView {
    MediaFileView {
        path,
        mime: effective_mime(file.content_type),
        name: if file.file_name.len() == 0 {
            None
        } else {
            Some(file.file_name)
        },
    }
}

/// How an upload starts: `first` is its first message, `None` where there is none.
pub open spec fn opened(directory: Seq<char>, first: Option<Option<PayloadView>>) -> Result<
    Upload,
    StatusView,
> {
    match first {
        None => Err(invalid_argument("metadata is required"@)),
        Some(Some(PayloadView::Metadata(metadata))) => if metadata.file_count == 0 {
            Err(invalid_argument("at least one media file is required"@))
        } else {
            match metadata.mode {
                None => Err(invalid_argument("invalid media mode"@)),
                Some(mode) => Ok(
                    Upload {
                        directory,
                        channel_id: metadata.channel_id,
                        expected_count: metadata.file_count as nat,
                        multiple: mode == MediaMode::Multiple,
                        stored: Seq::empty(),
                        current: None,
                    },
                ),
            }
        },
        Some(_) => Err(invalid_argument("the first message must be metadata"@)),
    }
}

impl Upload {
    /// What holds of every upload that started well: the incomplete file has been
    /// created and has bytes to come, and there are no more files than announced.
    pub open spec fn valid(self) -> bool {
        &&& 0 < self.expected_count <= u32::MAX
        &&& self.stored.len() <= self.expected_count
        &&& self.current matches Some(current) ==> {
            &&& self.stored.len() > 0
            &&& current.received_size < current.expected_size
        }
    }

    /// The upload fails with `status`; every file created so far is to be removed.
    pub open spec fn refused(self, status: StatusView) -> Refusal {
        Refusal { status, remove: paths(self.stored) }
    }

    /// Why a file of the size `file_size` cannot be announced, if there is a reason.
    pub open spec fn announcement_refusal(self, file_size: u64) -> Option<Refusal> {
        if self.current is Some {
            Some(self.refused(invalid_argument("the current media file is incomplete"@)))
        } else if self.stored.len() >= self.expected_count {
            Some(self.refused(invalid_argument("file count exceeds metadata"@)))
        } else if file_size == 0 {
            Some(self.refused(invalid_argument("media files cannot be empty"@)))
        } else {
            None
        }
    }

    /// The next file is announced; it would be called `name`.
    pub open spec fn announced(self, file: FileMetadataView, name: Seq<char>) -> Result<
        Creation,
        Refusal,
    > {
        match self.announcement_refusal(file.file_size) {
            Some(refusal) => Err(refusal),
            None => Ok(
                Creation {
                    upload: self,
                    file: stored_file(file, joined(self.directory, name)),
                    expected_size: file.file_size,
                },
            ),
        }
    }

    /// A chunk arrives.
    pub open spec fn chunked(self, chunk: Seq<u8>) -> Result<Write, Refusal> {
        match self.current {
            None => Err(self.refused(invalid_argument("file metadata must precede chunks"@))),
            Some(current) => {
                let received = current.received_size + chunk.len();
                if received > u64::MAX {
                    Err(self.refused(invalid_argument("media file size overflow"@)))
                } else if received > current.expected_size {
                    Err(self.refused(invalid_argument("media file exceeds its declared size"@)))
                } else {
                    Ok(
                        Write {
                            upload: self,
                            chunk,
                            expected_size: current.expected_size,
                            received_size: received as u64,
                        },
                    )
                }
            },
        }
    }

    /// A message arrives; a new file would be called `name`.
    pub open spec fn received(self, message: Option<PayloadView>, name: Seq<char>) -> Result<
        Task,
        Refusal,
    > {
        match message {
            None => Err(self.refused(invalid_argument("request payload is required"@))),
            Some(PayloadView::Metadata(_)) => Err(
                self.refused(invalid_argument("metadata can only be sent once"@)),
            ),
            Some(PayloadView::FileMetadata(file)) => match self.announced(file, name) {
                Ok(creation) => Ok(Task::Create(creation)),
                Err(refusal) => Err(refusal),
            },
            Some(PayloadView::Chunk(chunk)) => match self.chunked(chunk) {
                Ok(write) => Ok(Task::Write(write)),
                Err(refusal) => Err(refusal),
            },
        }
    }

    /// The messages have come to their end.
    pub open spec fn ended(self) -> Result<StoredMediaView, Refusal> {
        if self.current is Some {
            Err(self.refused(invalid_argument("the final media file is incomplete"@)))
        } else if self.stored.len() != self.expected_count {
            Err(self.refused(invalid_argument("file count does not match metadata"@)))
        } else {
            Ok(
                StoredMediaView {
                    channel_id: self.channel_id,
                    files: self.stored,
                    multiple: self.multiple,
                },
            )
        }
    }
}

impl Creation {
    /// The file exists: it belongs to the upload, and its bytes are to come.
    pub open spec fn done(self) -> Upload {
        Upload {
            stored: self.upload.stored.push(self.file),
            current: Some(CurrentFile { expected_size: self.expected_size, received_size: 0 }),
            ..self.upload
        }
    }

    pub open spec fn valid(self) -> bool {
        &&& self.upload.valid()
        &&& self.upload.current is None
        &&& self.upload.stored.len() < self.upload.expected_count
        &&& self.expected_size > 0
    }
}

impl Write {
    /// The chunk is in the file, which is complete once it has all of its bytes.
    pub open spec fn done(self) -> Upload {
        Upload {
            current: if self.received_size == self.expected_size {
                None
            } else {
                Some(
                    CurrentFile {
                        expected_size: self.expected_size,
                        received_size: self.received_size,
                    },
                )
            },
            ..self.upload
        }
    }

    pub open spec fn valid(self) -> bool {
        &&& self.upload.valid()
        &&& self.upload.current matches Some(current)
        &&& self.expected_size == current.expected_size
        &&& self.received_size == current.received_size + self.chunk.len()
        &&& self.received_size <= self.expected_size
    }
}

// ---------------------------------------------------------------------------
// The upload itself
// ---------------------------------------------------------------------------

/// An upload that waits for its next message.
#[derive(Debug, PartialEq, Eq)]
pub struct Receiving {
    pub directory: String,
    pub channel_id: i64,
    pub expected_count: usize,
    pub multiple: bool,
    pub stored: Vec<MediaFile>,
    pub current: Option<CurrentFile>,
}

impl View for Receiving {
    type V = Upload;

    open spec fn view(&self) -> Upload {
        Upload {
            directory: self.directory@,
            channel_id: self.channel_id,
            expected_count: self.expected_count as nat,
            multiple: self.multiple,
            stored: self.stored.deep_view(),
            current: self.current,
        }
    }
}

/// An upload that waits for `file` to be created.
#[derive(Debug, PartialEq, Eq)]
pub struct Creating {
    pub upload: Receiving,
    pub file: MediaFile,
    pub expected_size: u64,
}

impl View for Creating {
    type V = Creation;

    open spec fn view(&self) -> Creation {
        Creation {
            upload: self.upload@,
            file: self.file@,
            expected_size: self.expected_size,
        }
    }
}

/// An upload that waits for `chunk` to be written to its last file.
#[derive(Debug, PartialEq, Eq)]
pub struct Writing {
    pub upload: Receiving,
    pub chunk: Vec<u8>,
    pub expected_size: u64,
    pub received_size: u64,
}

impl View for Writing {
    type V = Write;

    open spec fn view(&self) -> Write {
        Write {
            upload: self.upload@,
            chunk: self.chunk@,
            expected_size: self.expected_size,
            received_size: self.received_size,
        }
    }
}

/// What a message asks for.
#[derive(Debug, PartialEq, Eq)]
pub enum Next {
    Create(Creating),
    Write(Writing),
}

impl View for Next {
    type V = Task;

    open spec fn view(&self) -> Task {
        match self {
            Next::Create(creating) => Task::Create(creating@),
            Next::Write(writing) => Task::Write(writing@),
        }
    }
}

/// The end of an upload that failed: the answer, and the files to remove.
#[derive(Debug, PartialEq, Eq)]
pub struct Rejected {
    pub status: Status,
    pub remove: Vec<String>,
}

impl View for Rejected {
    type V = Refusal;

    open spec fn view(&self) -> Refusal {
        Refusal { status: self.status@, remove: self.remove.deep_view() }
    }
}

/// Starts an upload into `directory`. `first` is the first message: `None` where the
/// stream ended without one, `Some(None)` where it carried nothing.
pub fn store_chunks(directory: String, first: Option<Option<Payload>>) -> (res: Result<
    Receiving,
    Status,
>)
    ensures
        result_view(res) == opened(directory@, first.deep_view()),
        res matches Ok(upload) ==> upload@.valid(),
        res matches Ok(upload) ==> {
            &&& upload.directory == directory
            &&& upload.stored@.len() == 0
            &&& upload.current is None
            &&& first matches Some(Some(Payload::Metadata(metadata))) && {
                &&& upload.channel_id == metadata.channel_id
                &&& upload.expected_count == metadata.file_count
                &&& upload.multiple <==> metadata.mode == Some(MediaMode::Multiple)
            }
        },
        res is Ok <==> (first matches Some(Some(Payload::Metadata(metadata)))
            && metadata.file_count > 0 && metadata.mode is Some),
        res matches Err(status) ==> {
            &&& status.code == Code::InvalidArgument
            &&& status.message@ == match first {
                None => "metadata is required"@,
                Some(Some(Payload::Metadata(metadata))) => if metadata.file_count == 0 {
                    "at least one media file is required"@
                } else {
                    "invalid media mode"@
                },
                Some(_) => "the first message must be metadata"@,
            }
        },
{
    let metadata: Metadata = match first {
        None => return Err(Status::invalid_argument("metadata is required")),
        Some(Some(Payload::Metadata(metadata))) => metadata,
        Some(_) => return Err(Status::invalid_argument("the first message must be metadata")),
    };
    if metadata.file_count == 0 {
        return Err(Status::invalid_argument("at least one media file is required"));
    }
    let mode: MediaMode = match metadata.mode {
        None => return Err(Status::invalid_argument("invalid media mode")),
        Some(mode) => mode,
    };
    let stored: Vec<MediaFile> = Vec::new();
    assert(stored.deep_view() =~= Seq::empty());
    Ok(
        Receiving {
            directory,
            channel_id: metadata.channel_id,
            expected_count: metadata.file_count as usize,
            multiple: mode == MediaMode::Multiple,
            stored,
            current: None,
        },
    )
}

impl Receiving {
    fn reject(&self, message: &str) -> (res: Rejected)
        ensures
            res@ == self@.refused(invalid_argument(message@)),
            res.status.code == Code::InvalidArgument,
            res.status.message@ == message@,
            res.remove@.len() == self.stored@.len(),
            forall|i: int|
                0 <= i < self.stored@.len() ==> (#[trigger] res.remove@[i])@ == self.stored@[i].path@,
    {
        Rejected { status: Status::invalid_argument(message), remove: paths_of(&self.stored) }
    }

    /// Why a file of the size `file_size` cannot be announced, if there is a reason.
    fn refuse_announcement(&self, file_size: u64) -> (res: Option<Rejected>)
        ensures
            match res {
                Some(rejected) => self@.announcement_refusal(file_size) == Some(rejected@),
                None => self@.announcement_refusal(file_size) is None,
            },
            res is None <==> self.current is None && self.stored@.len() < self.expected_count
                && file_size > 0,
            res matches Some(rejected) ==> {
                &&& rejected.status.code == Code::InvalidArgument
                &&& rejected.status.message@ == if self.current is Some {
                    "the current media file is incomplete"@
                } else if self.stored@.len() >= self.expected_count {
                    "file count exceeds metadata"@
                } else {
                    "media files cannot be empty"@
                }
                &&& rejected.remove@.len() == self.stored@.len()
                &&& forall|i: int|
                    0 <= i < self.stored@.len() ==> (#[trigger] rejected.remove@[i])@ == self.stored@[i].path@
            },
    {
        if self.current.is_some() {
            return Some(self.reject("the current media file is incomplete"));
        }
        if self.stored.len() >= self.expected_count {
            return Some(self.reject("file count exceeds metadata"));
        }
        if file_size == 0 {
            return Some(self.reject("media files cannot be empty"));
        }
        None
    }

    /// Takes the announcement of a file, which is to be called `name`.
    pub fn announce(self, file: FileMetadata, name: &str) -> (res: Result<Creating, Rejected>)
        ensures
            result_view(res) == self@.announced(file@, name@),
            self@.valid() ==> (res matches Ok(creating) ==> creating@.valid()),
            res is Ok <==> self.current is None && self.stored@.len() < self.expected_count
                && file.file_size > 0,
            res matches Ok(creating) ==> {
                &&& creating.upload == self
                &&& creating.expected_size == file.file_size
                &&& creating.file.path@ == joined(self.directory@, name@)
                &&& file.file_name@.len() == 0 ==> creating.file.name is None
                &&& file.file_name@.len() > 0 ==> creating.file.name == Some(file.file_name)
                &&& (exists|i: int|
                    0 <= i < file.content_type@.len() && !is_white_space(
                        #[trigger] file.content_type@[i],
                    )) ==> creating.file.mime == file.content_type
                &&& (forall|i: int|
                    0 <= i < file.content_type@.len() ==> is_white_space(
                        #[trigger] file.content_type@[i],
                    )) ==> creating.file.mime@ == "application/octet-stream"@
            },
            res matches Err(rejected) ==> {
                &&& rejected.status.code == Code::InvalidArgument
                &&& rejected.status.message@ == if self.current is Some {
                    "the current media file is incomplete"@
                } else if self.stored@.len() >= self.expected_count {
                    "file count exceeds metadata"@
                } else {
                    "media files cannot be empty"@
                }
                &&& rejected.remove@.len() == self.stored@.len()
                &&& forall|i: int|
                    0 <= i < self.stored@.len() ==> (#[trigger] rejected.remove@[i])@ == self.stored@[i].path@
            },
    {
        if let Some(rejected) = self.refuse_announcement(file.file_size) {
            return Err(rejected);
        }
        let path = join_path(&self.directory, name);
        Ok(
            Creating {
                file: MediaFile {
                    path,
                    mime: mime_or_default(file.content_type),
                    name: if file.file_name.as_str().is_empty() {
                        None
                    } else {
                        Some(file.file_name)
                    },
                },
                expected_size: file.file_size,
                upload: self,
            },
        )
    }

    /// Takes a chunk of the current file.
    pub fn accept_chunk(self, chunk: Vec<u8>) -> (res: Result<Writing, Rejected>)
        ensures
            result_view(res) == self@.chunked(chunk@),
            self@.valid() ==> (res matches Ok(writing) ==> writing@.valid()),
            res is Ok <==> (self.current matches Some(current) && current.received_size
                + chunk@.len() <= current.expected_size),
            res matches Ok(writing) ==> {
                &&& writing.upload == self
                &&& writing.chunk == chunk
                &&& self.current matches Some(current) && {
                    &&& writing.expected_size == current.expected_size
                    &&& writing.received_size == current.received_size + chunk@.len()
                }
            },
            res matches Err(rejected) ==> {
                &&& rejected.status.code == Code::InvalidArgument
                &&& rejected.status.message@ == match self.current {
                    None => "file metadata must precede chunks"@,
                    Some(current) => if current.received_size + chunk@.len() > u64::MAX {
                        "media file size overflow"@
                    } else {
                        "media file exceeds its declared size"@
                    },
                }
                &&& rejected.remove@.len() == self.stored@.len()
                &&& forall|i: int|
                    0 <= i < self.stored@.len() ==> (#[trigger] rejected.remove@[i])@ == self.stored@[i].path@
            },
    {
        let current: CurrentFile = match self.current {
            None => return Err(self.reject("file metadata must precede chunks")),
            Some(current) => current,
        };
        let received_size: u64 = match current.received_size.checked_add(chunk.len() as u64) {
            None => return Err(self.reject("media file size overflow")),
            Some(received_size) => received_size,
        };
        if received_size > current.expected_size {
            return Err(self.reject("media file exceeds its declared size"));
        }
        Ok(Writing { upload: self, chunk, expected_size: current.expected_size, received_size })
    }

    /// Takes the next message; `None` where it carried nothing. A file that it
    /// announces gets a fresh random name, which is drawn once nothing speaks against the
    /// file. The draw panics where the system has no random numbers to give.
    pub fn next(self, message: Option<Payload>) -> (res: Result<Next, Rejected>)
        ensures
            exists|name: Seq<char>| #[trigger]
                is_random_uuid(name) && result_view(res) == self@.received(
                    message.deep_view(),
                    name,
                ),
            self@.valid() ==> match res {
                Ok(Next::Create(creating)) => creating@.valid(),
                Ok(Next::Write(writing)) => writing@.valid(),
                Err(_) => true,
            },
            match message {
                None => res is Err,
                Some(Payload::Metadata(_)) => res is Err,
                Some(Payload::FileMetadata(file)) => {
                    &&& res is Ok <==> self.current is None && self.stored@.len()
                        < self.expected_count && file.file_size > 0
                    &&& res is Ok ==> res->Ok_0 is Create
                },
                Some(Payload::Chunk(chunk)) => {
                    &&& res is Ok <==> (self.current matches Some(current) && current.received_size
                        + chunk@.len() <= current.expected_size)
                    &&& res is Ok ==> res->Ok_0 is Write
                },
            },
            res matches Ok(Next::Create(creating)) ==> {
                &&& creating.upload == self
                &&& message matches Some(Payload::FileMetadata(file)) && {
                    &&& creating.expected_size == file.file_size
                    &&& file.file_name@.len() == 0 ==> creating.file.name is None
                    &&& file.file_name@.len() > 0 ==> creating.file.name == Some(file.file_name)
                    &&& (exists|i: int|
                        0 <= i < file.content_type@.len() && !is_white_space(
                            #[trigger] file.content_type@[i],
                        )) ==> creating.file.mime == file.content_type
                    &&& (forall|i: int|
                        0 <= i < file.content_type@.len() ==> is_white_space(
                            #[trigger] file.content_type@[i],
                        )) ==> creating.file.mime@ == "application/octet-stream"@
                }
                &&& exists|name: Seq<char>| #[trigger]
                    is_random_uuid(name) && creating.file.path@ == joined(self.directory@, name)
            },
            res matches Ok(Next::Write(writing)) ==> {
                &&& writing.upload == self
                &&& message == Some(Payload::Chunk(writing.chunk))
                &&& self.current matches Some(current) && {
                    &&& writing.expected_size == current.expected_size
                    &&& writing.received_size == current.received_size + writing.chunk@.len()
                }
            },
            res matches Err(rejected) ==> {
                &&& rejected.status.code == Code::InvalidArgument
                &&& rejected.status.message@ == match message {
                    None => "request payload is required"@,
                    Some(Payload::Metadata(_)) => "metadata can only be sent once"@,
                    Some(Payload::FileMetadata(_)) => if self.current is Some {
                        "the current media file is incomplete"@
                    } else if self.stored@.len() >= self.expected_count {
                        "file count exceeds metadata"@
                    } else {
                        "media files cannot be empty"@
                    },
                    Some(Payload::Chunk(chunk)) => match self.current {
                        None => "file metadata must precede chunks"@,
                        Some(current) => if current.received_size + chunk@.len() > u64::MAX {
                            "media file size overflow"@
                        } else {
                            "media file exceeds its declared size"@
                        },
                    },
                }
                &&& rejected.remove@.len() == self.stored@.len()
                &&& forall|i: int|
                    0 <= i < self.stored@.len() ==> (#[trigger] rejected.remove@[i])@ == self.stored@[i].path@
            },
    {
        proof {
            lemma_random_uuids_exist();
        }
        match message {
            None => Err(self.reject("request payload is required")),
            Some(Payload::Metadata(_)) => Err(self.reject("metadata can only be sent once")),
            Some(Payload::FileMetadata(file)) => {
                if let Some(rejected) = self.refuse_announcement(file.file_size) {
                    return Err(rejected);
                }
                let name = fresh_name();
                assert(is_random_uuid(name@));
                match self.announce(file, &name) {
                    Ok(creating) => Ok(Next::Create(creating)),
                    Err(rejected) => Err(rejected),
                }
            },
            Some(Payload::Chunk(chunk)) => match self.accept_chunk(chunk) {
                Ok(writing) => Ok(Next::Write(writing)),
                Err(rejected) => Err(rejected),
            },
        }
    }

    /// Takes the end of the messages.
    pub fn finish(self) -> (res: Result<StoredMedia, Rejected>)
        ensures
            result_view(res) == self@.ended(),
            res is Ok <==> self.current is None && self.stored@.len() == self.expected_count,
            res matches Ok(media) ==> {
                &&& media.channel_id == self.channel_id
                &&& media.files == self.stored
                &&& media.multiple == self.multiple
            },
            res matches Err(rejected) ==> {
                &&& rejected.status.code == Code::InvalidArgument
                &&& rejected.status.message@ == if self.current is Some {
                    "the final media file is incomplete"@
                } else {
                    "file count does not match metadata"@
                }
                &&& rejected.remove@.len() == self.stored@.len()
                &&& forall|i: int|
                    0 <= i < self.stored@.len() ==> (#[trigger] rejected.remove@[i])@ == self.stored@[i].path@
            },
    {
        if self.current.is_some() {
            return Err(self.reject("the final media file is incomplete"));
        }
        if self.stored.len() != self.expected_count {
            return Err(self.reject("file count does not match metadata"));
        }
        Ok(
            StoredMedia {
                channel_id: self.channel_id,
                files: self.stored,
                multiple: self.multiple,
            },
        )
    }

    /// Gives the upload up, where its messages broke off: the files to remove.
    pub fn abandon(self) -> (res: Vec<String>)
        ensures
            res.deep_view() == paths(self@.stored),
            res@.len() == self.stored@.len(),
            forall|i: int|
                0 <= i < self.stored@.len() ==> (#[trigger] res@[i])@ == self.stored@[i].path@,
    {
        paths_of(&self.stored)
    }
}

impl Creating {
    /// The file has been created.
    pub fn created(self) -> (res: Receiving)
        ensures
            res@ == self@.done(),
            self@.valid() ==> res@.valid(),
            res.directory == self.upload.directory,
            res.channel_id == self.upload.channel_id,
            res.expected_count == self.upload.expected_count,
            res.multiple == self.upload.multiple,
            res.stored@ == self.upload.stored@.push(self.file),
            res.current == Some(
                CurrentFile { expected_size: self.expected_size, received_size: 0 },
            ),
    {
        let mut upload = self.upload;
        upload.stored.push(self.file);
        upload.current = Some(
            CurrentFile { expected_size: self.expected_size, received_size: 0 },
        );
        assert(upload@.stored =~= self@.upload.stored.push(self@.file));
        upload
    }

    /// The file could not be created. It is no part of the upload, so it is not among
    /// the files to remove.
    pub fn failed(self, error: &str) -> (res: Rejected)
        ensures
            res@ == self@.upload.refused(internal(storage_failure(error@))),
            res.status.code == Code::Internal,
            res.status.message@ == "failed to store media file: "@ + error@,
            res.remove@.len() == self.upload.stored@.len(),
            forall|i: int|
                0 <= i < self.upload.stored@.len() ==> (#[trigger] res.remove@[i])@
                    == self.upload.stored@[i].path@,
    {
        Rejected {
            status: Status::internal(storage_error(error)),
            remove: paths_of(&self.upload.stored),
        }
    }
}

impl Writing {
    /// The chunk has been written.
    pub fn written(self) -> (res: Receiving)
        ensures
            res@ == self@.done(),
            self@.valid() ==> res@.valid(),
            res.directory == self.upload.directory,
            res.channel_id == self.upload.channel_id,
            res.expected_count == self.upload.expected_count,
            res.multiple == self.upload.multiple,
            res.stored == self.upload.stored,
            res.current is None <==> self.received_size == self.expected_size,
            res.current matches Some(current) ==> {
                &&& current.expected_size == self.expected_size
                &&& current.received_size == self.received_size
            },
    {
        let mut upload = self.upload;
        upload.current = if self.received_size == self.expected_size {
            None
        } else {
            Some(
                CurrentFile {
                    expected_size: self.expected_size,
                    received_size: self.received_size,
                },
            )
        };
        upload
    }

    /// The chunk could not be written. The file that it belongs to is among those to
    /// remove.
    pub fn failed(self, error: &str) -> (res: Rejected)
        ensures
            res@ == self@.upload.refused(internal(storage_failure(error@))),
            res.status.code == Code::Internal,
            res.status.message@ == "failed to store media file: "@ + error@,
            res.remove@.len() == self.upload.stored@.len(),
            forall|i: int|
                0 <= i < self.upload.stored@.len() ==> (#[trigger] res.remove@[i])@
                    == self.upload.stored@[i].path@,
    {
        Rejected {
            status: Status::internal(storage_error(error)),
            remove: paths_of(&self.upload.stored),
        }
    }
}

} // verus!
