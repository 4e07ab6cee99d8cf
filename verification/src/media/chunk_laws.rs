//! What holds of uploads from their first message to their last.

use vstd::prelude::*;

use crate::media::chunks::{
    opened, stored_file, FileMetadataView, Metadata, PayloadView, Refusal, Task, Upload,
};
use crate::media::{
    law_mime_types_are_kept, paths, storage_failure, MediaMode, StoredMediaView,
};
use crate::status::{internal, Code};
use crate::text::{is_white_space, joined};

verus! {

/// An upload, with what has been written to each of its files.
pub struct Session {
    pub upload: Upload,
    pub contents: Seq<Seq<u8>>,
}

impl Session {
    /// A message arrives, and what it asks for succeeds.
    pub open spec fn step(self, message: Option<PayloadView>, name: Seq<char>) -> Result<
        Session,
        Refusal,
    > {
        match self.upload.received(message, name) {
            Err(refusal) => Err(refusal),
            Ok(Task::Create(creation)) => Ok(
                Session { upload: creation.done(), contents: self.contents.push(Seq::empty()) },
            ),
            Ok(Task::Write(write)) => Ok(
                Session {
                    upload: write.done(),
                    contents: self.contents.update(
                        self.contents.len() - 1,
                        self.contents.last() + write.chunk,
                    ),
                },
            ),
        }
    }
}

/// What has become of `start` after `messages`, where the `i`-th file is called
/// `names[i]`.
pub open spec fn session(
    start: Upload,
    messages: Seq<Option<PayloadView>>,
    names: Seq<Seq<char>>,
) -> Result<Session, Refusal>
    decreases messages.len(),
{
    if messages.len() == 0 {
        Ok(Session { upload: start, contents: Seq::empty() })
    } else {
        match session(start, messages.drop_last(), names) {
            Err(refusal) => Err(refusal),
            Ok(before) => before.step(messages.last(), names[before.upload.stored.len() as int]),
        }
    }
}

/// The paths of the files that have been created for `messages`, in order.
pub open spec fn created(
    start: Upload,
    messages: Seq<Option<PayloadView>>,
    names: Seq<Seq<char>>,
) -> Seq<Seq<char>>
    decreases messages.len(),
{
    if messages.len() == 0 {
        Seq::empty()
    } else {
        let earlier = created(start, messages.drop_last(), names);
        match session(start, messages.drop_last(), names) {
            Err(_) => earlier,
            Ok(before) => match before.upload.received(
                messages.last(),
                names[before.upload.stored.len() as int],
            ) {
                Ok(Task::Create(creation)) => earlier.push(creation.file.path),
                _ => earlier,
            },
        }
    }
}

/// The first of `messages`, where there is one.
pub open spec fn first_message(messages: Seq<Option<PayloadView>>) -> Option<
    Option<PayloadView>,
> {
    if messages.len() == 0 {
        None
    } else {
        Some(messages.first())
    }
}

/// What becomes of all the messages of an upload: the stored media with the contents
/// of each file, or a refusal.
pub open spec fn outcome(
    directory: Seq<char>,
    messages: Seq<Option<PayloadView>>,
    names: Seq<Seq<char>>,
) -> Result<(StoredMediaView, Seq<Seq<u8>>), Refusal> {
    match opened(directory, first_message(messages)) {
        Err(status) => Err(Refusal { status, remove: Seq::empty() }),
        Ok(start) => match session(start, messages.drop_first(), names) {
            Err(refusal) => Err(refusal),
            Ok(last) => match last.upload.ended() {
                Err(refusal) => Err(refusal),
                Ok(media) => Ok((media, last.contents)),
            },
        },
    }
}

// ---------------------------------------------------------------------------
// Uploads as their sender means them
// ---------------------------------------------------------------------------

/// A file in the pieces in which it is sent.
pub struct SentFile {
    pub metadata: FileMetadataView,
    pub chunks: Seq<Seq<u8>>,
}

/// The bytes of all `chunks`.
pub open spec fn joined_chunks(chunks: Seq<Seq<u8>>) -> Seq<u8>
    decreases chunks.len(),
{
    if chunks.len() == 0 {
        Seq::empty()
    } else {
        joined_chunks(chunks.drop_last()) + chunks.last()
    }
}

impl SentFile {
    /// The file has the size that it declares, which is not zero, and no chunk comes
    /// after its last byte.
    pub open spec fn complete(self) -> bool {
        &&& self.metadata.file_size > 0
        &&& joined_chunks(self.chunks).len() == self.metadata.file_size
        &&& self.chunks.len() > 0
        &&& self.chunks.last().len() > 0
    }

    /// Bytes of the file are still to come.
    pub open spec fn started(self) -> bool {
        joined_chunks(self.chunks).len() < self.metadata.file_size
    }

    /// The messages that send the file.
    pub open spec fn messages(self) -> Seq<Option<PayloadView>> {
        seq![Some(PayloadView::FileMetadata(self.metadata))] + self.chunks.map_values(
            |chunk: Seq<u8>| Some(PayloadView::Chunk(chunk)),
        )
    }
}

/// The messages that send `files`, one after the other.
pub open spec fn file_messages(files: Seq<SentFile>) -> Seq<Option<PayloadView>>
    decreases files.len(),
{
    if files.len() == 0 {
        Seq::empty()
    } else {
        file_messages(files.drop_last()) + files.last().messages()
    }
}

/// The messages that send `files` under `metadata`.
pub open spec fn upload_messages(metadata: Metadata, files: Seq<SentFile>) -> Seq<
    Option<PayloadView>,
> {
    seq![Some(PayloadView::Metadata(metadata))] + file_messages(files)
}

/// An upload as it should be: a known mode, as many files as announced and at least
/// one, each of them complete.
pub open spec fn well_formed(metadata: Metadata, files: Seq<SentFile>) -> bool {
    &&& metadata.mode is Some
    &&& metadata.file_count == files.len()
    &&& files.len() > 0
    &&& forall|i: int| 0 <= i < files.len() ==> (#[trigger] files[i]).complete()
}

/// The upload has taken `files` so far, of which the last may be incomplete.
pub open spec fn has_taken(
    session: Session,
    start: Upload,
    files: Seq<SentFile>,
    names: Seq<Seq<char>>,
) -> bool {
    let upload = session.upload;
    &&& upload.directory == start.directory
    &&& upload.channel_id == start.channel_id
    &&& upload.expected_count == start.expected_count
    &&& upload.multiple == start.multiple
    &&& upload.stored.len() == files.len()
    &&& session.contents.len() == files.len()
    &&& forall|i: int|
        #![trigger files[i]]
        0 <= i < files.len() ==> {
            &&& upload.stored[i] == stored_file(
                files[i].metadata,
                joined(start.directory, names[i]),
            )
            &&& session.contents[i] == joined_chunks(files[i].chunks)
        }
    &&& match upload.current {
        None => forall|i: int| 0 <= i < files.len() ==> (#[trigger] files[i]).complete(),
        Some(current) => {
            &&& files.len() > 0
            &&& files.last().started()
            &&& current.expected_size == files.last().metadata.file_size
            &&& current.received_size == joined_chunks(files.last().chunks).len()
            &&& forall|i: int|
                0 <= i < files.len() - 1 ==> (#[trigger] files[i]).complete()
        },
    }
}

// ---------------------------------------------------------------------------
// Laws
// ---------------------------------------------------------------------------

/// An upload that started well stays as it should be, whatever is sent.
pub proof fn law_uploads_stay_valid(
    start: Upload,
    messages: Seq<Option<PayloadView>>,
    names: Seq<Seq<char>>,
)
    requires
        start.valid(),
        start.stored.len() == 0,
    ensures
        session(start, messages, names) matches Ok(after) ==> {
            &&& after.upload.valid()
            &&& after.contents.len() == after.upload.stored.len()
        },
    decreases messages.len(),
{
    if messages.len() > 0 {
        law_uploads_stay_valid(start, messages.drop_last(), names);
    }
}

/// The files that an upload holds are exactly those created for it, in order. So
/// whatever ends it early, a message or a file that cannot be stored, all of them are
/// removed and nothing else.
pub proof fn law_stored_files_are_those_created(
    start: Upload,
    messages: Seq<Option<PayloadView>>,
    names: Seq<Seq<char>>,
)
    requires
        start.stored.len() == 0,
    ensures
        match session(start, messages, names) {
            Ok(after) => paths(after.upload.stored) == created(start, messages, names),
            Err(refusal) => refusal.remove == created(start, messages, names),
        },
    decreases messages.len(),
{
    if messages.len() == 0 {
        assert(paths(start.stored) =~= Seq::empty());
    } else {
        law_stored_files_are_those_created(start, messages.drop_last(), names);
        if let Ok(before) = session(start, messages.drop_last(), names) {
            let name = names[before.upload.stored.len() as int];
            if let Ok(Task::Create(creation)) = before.upload.received(messages.last(), name) {
                assert(paths(before.upload.stored.push(creation.file)) =~= paths(
                    before.upload.stored,
                ).push(creation.file.path));
            }
        }
    }
}

/// What a sender has sent so far, read back from an upload that has not failed.
proof fn lemma_session_reads_back(
    start: Upload,
    messages: Seq<Option<PayloadView>>,
    names: Seq<Seq<char>>,
) -> (files: Seq<SentFile>)
    requires
        start.stored.len() == 0,
        start.current is None,
        session(start, messages, names) is Ok,
    ensures
        file_messages(files) == messages,
        has_taken(session(start, messages, names)->Ok_0, start, files, names),
    decreases messages.len(),
{
    if messages.len() == 0 {
        let files = Seq::<SentFile>::empty();
        assert(file_messages(files) =~= messages);
        files
    } else {
        let earlier = lemma_session_reads_back(start, messages.drop_last(), names);
        let before = session(start, messages.drop_last(), names)->Ok_0;
        let after = session(start, messages, names)->Ok_0;
        match messages.last() {
            Some(PayloadView::FileMetadata(metadata)) => {
                let file = SentFile { metadata, chunks: Seq::empty() };
                let files = earlier.push(file);
                assert(files.drop_last() =~= earlier);
                assert(file.messages() =~= seq![messages.last()]);
                assert(file_messages(files) =~= messages);
                assert(has_taken(after, start, files, names)) by {
                    assert forall|i: int| 0 <= i < files.len() - 1 implies (
                    #[trigger] files[i]).complete() by {
                        assert(files[i] == earlier[i]);
                    }
                    assert forall|i: int|
                        #![trigger files[i]]
                        0 <= i < files.len() implies {
                        &&& after.upload.stored[i] == stored_file(
                            files[i].metadata,
                            joined(start.directory, names[i]),
                        )
                        &&& after.contents[i] == joined_chunks(files[i].chunks)
                    } by {
                        if i < files.len() - 1 {
                            assert(files[i] == earlier[i]);
                        }
                    }
                }
                files
            },
            Some(PayloadView::Chunk(chunk)) => {
                let last = earlier.last();
                let file = SentFile { chunks: last.chunks.push(chunk), ..last };
                let files = earlier.update(earlier.len() - 1, file);
                assert(files.drop_last() =~= earlier.drop_last());
                assert(file.messages() =~= last.messages().push(messages.last()));
                assert(messages =~= messages.drop_last().push(messages.last()));
                assert(files.last() == file);
                assert(file_messages(files) =~= messages);
                assert(file.chunks.drop_last() =~= last.chunks);
                assert(joined_chunks(file.chunks) == joined_chunks(last.chunks) + chunk);
                assert(has_taken(after, start, files, names)) by {
                    assert forall|i: int| 0 <= i < files.len() - 1 implies (
                    #[trigger] files[i]).complete() by {
                        assert(files[i] == earlier[i]);
                    }
                    assert forall|i: int|
                        #![trigger files[i]]
                        0 <= i < files.len() implies {
                        &&& after.upload.stored[i] == stored_file(
                            files[i].metadata,
                            joined(start.directory, names[i]),
                        )
                        &&& after.contents[i] == joined_chunks(files[i].chunks)
                    } by {
                        assert(earlier[i].metadata == files[i].metadata);
                    }
                }
                files
            },
            _ => { earlier },
        }
    }
}

proof fn lemma_session_splits(
    start: Upload,
    messages: Seq<Option<PayloadView>>,
    last: Option<PayloadView>,
    names: Seq<Seq<char>>,
)
    ensures
        session(start, messages.push(last), names) == match session(start, messages, names) {
            Err(refusal) => Err(refusal),
            Ok(before) => before.step(last, names[before.upload.stored.len() as int]),
        },
{
    assert(messages.push(last).drop_last() =~= messages);
}

/// A file is taken up to its last chunk.
proof fn lemma_file_is_taken(
    start: Upload,
    earlier: Seq<SentFile>,
    file: SentFile,
    taken: nat,
    names: Seq<Seq<char>>,
)
    requires
        start.stored.len() == 0,
        start.current is None,
        earlier.len() < start.expected_count,
        file.complete(),
        taken <= file.chunks.len(),
        session(start, file_messages(earlier), names) matches Ok(before) && has_taken(
            before,
            start,
            earlier,
            names,
        ) && before.upload.current is None,
    ensures
        ({
            let part = SentFile { chunks: file.chunks.take(taken as int), ..file };
            session(start, file_messages(earlier.push(part)), names) matches Ok(after) && has_taken(
                after,
                start,
                earlier.push(part),
                names,
            ) && (after.upload.current is None <==> taken == file.chunks.len())
        }),
    decreases taken,
{
    let part = SentFile { chunks: file.chunks.take(taken as int), ..file };
    let files = earlier.push(part);
    assert(files.drop_last() =~= earlier);
    if taken == 0 {
        assert(part.chunks =~= Seq::empty());
        assert(part.messages() =~= seq![Some(PayloadView::FileMetadata(file.metadata))]);
        let last = Some(PayloadView::FileMetadata(file.metadata));
        assert(file_messages(files) =~= file_messages(earlier).push(last));
        lemma_session_splits(start, file_messages(earlier), last, names);
        let after = session(start, file_messages(files), names)->Ok_0;
        assert(has_taken(after, start, files, names)) by {
            assert forall|i: int| #![trigger files[i]] 0 <= i < files.len() - 1 implies files[i]
                == earlier[i] by {}
        }
    } else {
        let shorter = SentFile { chunks: file.chunks.take(taken - 1), ..file };
        lemma_file_is_taken(start, earlier, file, (taken - 1) as nat, names);
        let chunk = file.chunks[taken - 1];
        let last = Some(PayloadView::Chunk(chunk));
        let previous = earlier.push(shorter);
        assert(previous.drop_last() =~= earlier);
        assert(part.messages() =~= shorter.messages().push(last));
        assert(file_messages(files) =~= file_messages(previous).push(last));
        lemma_session_splits(start, file_messages(previous), last, names);
        assert(part.chunks.drop_last() =~= shorter.chunks);
        assert(part.chunks.last() == chunk);
        assert(joined_chunks(part.chunks) == joined_chunks(shorter.chunks) + chunk);
        lemma_joined_chunks_grow(file.chunks, taken as int);
        let before = session(start, file_messages(previous), names)->Ok_0;
        assert(before.upload.current is Some);
        assert(previous.last() == shorter);
        if taken == file.chunks.len() {
            assert(file.chunks.take(taken as int) =~= file.chunks);
        } else {
            lemma_joined_chunks_grow(file.chunks, file.chunks.len() - 1);
            lemma_joined_chunks_grow(file.chunks.drop_last(), taken as int);
            assert(file.chunks.drop_last().take(taken as int) =~= part.chunks);
        }
        let after = session(start, file_messages(files), names)->Ok_0;
        assert(has_taken(after, start, files, names)) by {
            assert forall|i: int| #![trigger files[i]] 0 <= i < files.len() - 1 implies files[i]
                == previous[i] by {}
        }
    }
}

/// More chunks never hold fewer bytes.
proof fn lemma_joined_chunks_grow(chunks: Seq<Seq<u8>>, k: int)
    requires
        0 <= k <= chunks.len(),
    ensures
        joined_chunks(chunks.take(k)).len() <= joined_chunks(chunks).len(),
    decreases chunks.len() - k,
{
    if k == chunks.len() {
        assert(chunks.take(k) =~= chunks);
    } else {
        lemma_joined_chunks_grow(chunks, k + 1);
        assert(chunks.take(k + 1).drop_last() =~= chunks.take(k));
    }
}

/// Complete files are all taken, up to the count that was announced.
proof fn lemma_files_are_taken(start: Upload, files: Seq<SentFile>, names: Seq<Seq<char>>)
    requires
        start.stored.len() == 0,
        start.current is None,
        files.len() <= start.expected_count,
        forall|i: int| 0 <= i < files.len() ==> (#[trigger] files[i]).complete(),
    ensures
        session(start, file_messages(files), names) matches Ok(after) && has_taken(
            after,
            start,
            files,
            names,
        ) && after.upload.current is None,
    decreases files.len(),
{
    if files.len() > 0 {
        let earlier = files.drop_last();
        assert forall|i: int| 0 <= i < earlier.len() implies (#[trigger] earlier[i]).complete() by {
            assert(earlier[i] == files[i]);
        }
        lemma_files_are_taken(start, earlier, names);
        let file = files.last();
        assert(files[files.len() - 1].complete());
        lemma_file_is_taken(start, earlier, file, file.chunks.len(), names);
        assert(file.chunks.take(file.chunks.len() as int) =~= file.chunks);
        assert(earlier.push(file) =~= files);
    }
}

/// What is announced and sent as it should be is accepted: each file is stored under
/// its own name, with its MIME type and name, and holds exactly the bytes sent.
pub proof fn law_well_formed_uploads_are_accepted(
    directory: Seq<char>,
    metadata: Metadata,
    files: Seq<SentFile>,
    names: Seq<Seq<char>>,
)
    requires
        well_formed(metadata, files),
    ensures
        outcome(directory, upload_messages(metadata, files), names) == Ok::<_, Refusal>(
            (
                StoredMediaView {
                    channel_id: metadata.channel_id,
                    files: Seq::new(
                        files.len(),
                        |i: int| stored_file(files[i].metadata, joined(directory, names[i])),
                    ),
                    multiple: metadata.mode == Some(MediaMode::Multiple),
                },
                Seq::new(files.len(), |i: int| joined_chunks(files[i].chunks)),
            ),
        ),
{
    let messages = upload_messages(metadata, files);
    assert(messages.drop_first() =~= file_messages(files));
    let start = opened(directory, first_message(messages))->Ok_0;
    lemma_files_are_taken(start, files, names);
    let last = session(start, file_messages(files), names)->Ok_0;
    assert(last.upload.stored =~= Seq::new(
        files.len(),
        |i: int| stored_file(files[i].metadata, joined(directory, names[i])),
    ));
    assert(last.contents =~= Seq::new(files.len(), |i: int| joined_chunks(files[i].chunks)));
}

/// Nothing else is accepted.
pub proof fn law_only_well_formed_uploads_are_accepted(
    directory: Seq<char>,
    messages: Seq<Option<PayloadView>>,
    names: Seq<Seq<char>>,
)
    requires
        outcome(directory, messages, names) is Ok,
    ensures
        exists|metadata: Metadata, files: Seq<SentFile>| #[trigger]
            well_formed(metadata, files) && messages == upload_messages(metadata, files),
{
    let start = opened(directory, first_message(messages))->Ok_0;
    let metadata = messages.first()->Some_0->Metadata_0;
    let files = lemma_session_reads_back(start, messages.drop_first(), names);
    assert(upload_messages(metadata, files) =~= messages);
    assert(well_formed(metadata, files));
}

/// A refused upload is the sender's fault, and leaves no file behind.
pub proof fn law_refused_uploads_leave_nothing(
    directory: Seq<char>,
    messages: Seq<Option<PayloadView>>,
    names: Seq<Seq<char>>,
)
    requires
        outcome(directory, messages, names) is Err,
    ensures
        ({
            let refusal = outcome(directory, messages, names)->Err_0;
            &&& refusal.status.code == Code::InvalidArgument
            &&& match opened(directory, first_message(messages)) {
                Err(_) => refusal.remove.len() == 0,
                Ok(start) => refusal.remove == created(start, messages.drop_first(), names),
            }
        }),
{
    if let Ok(start) = opened(directory, first_message(messages)) {
        law_stored_files_are_those_created(start, messages.drop_first(), names);
        lemma_refusals_blame_the_sender(start, messages.drop_first(), names);
    }
}

proof fn lemma_refusals_blame_the_sender(
    start: Upload,
    messages: Seq<Option<PayloadView>>,
    names: Seq<Seq<char>>,
)
    ensures
        session(start, messages, names) matches Err(refusal) ==> refusal.status.code
            == Code::InvalidArgument,
    decreases messages.len(),
{
    if messages.len() > 0 {
        lemma_refusals_blame_the_sender(start, messages.drop_last(), names);
    }
}

/// What the sender announced is what is sent on: the channel and the mode, and for each
/// file, in order, the name and the MIME type letter for letter, or none and the default
/// where the sender left them out. Each file lies in the directory under its own random
/// name and holds the bytes of its chunks.
pub proof fn law_uploads_are_what_was_announced(
    directory: Seq<char>,
    metadata: Metadata,
    files: Seq<SentFile>,
    names: Seq<Seq<char>>,
)
    requires
        well_formed(metadata, files),
    ensures
        outcome(directory, upload_messages(metadata, files), names) matches Ok((media, contents))
            && {
            &&& media.channel_id == metadata.channel_id
            &&& media.multiple <==> metadata.mode == Some(MediaMode::Multiple)
            &&& media.files.len() == files.len()
            &&& contents.len() == files.len()
            &&& forall|i: int|
                0 <= i < files.len() ==> (#[trigger] media.files[i]).name == if files[i].metadata.file_name.len()
                    == 0 {
                    None
                } else {
                    Some(files[i].metadata.file_name)
                }
            &&& forall|i: int|
                0 <= i < files.len() ==> (#[trigger] media.files[i]).mime == if exists|j: int|
                    0 <= j < files[i].metadata.content_type.len() && !is_white_space(
                        #[trigger] files[i].metadata.content_type[j],
                    ) {
                    files[i].metadata.content_type
                } else {
                    "application/octet-stream"@
                }
            &&& forall|i: int|
                0 <= i < files.len() ==> (#[trigger] media.files[i]).path == joined(
                    directory,
                    names[i],
                )
            &&& forall|i: int|
                0 <= i < files.len() ==> #[trigger] contents[i] == joined_chunks(files[i].chunks)
        },
{
    law_well_formed_uploads_are_accepted(directory, metadata, files, names);
    let (media, _) = outcome(directory, upload_messages(metadata, files), names)->Ok_0;
    assert forall|i: int| 0 <= i < files.len() implies (#[trigger] media.files[i]).mime
        == if exists|j: int|
        0 <= j < files[i].metadata.content_type.len() && !is_white_space(
            #[trigger] files[i].metadata.content_type[j],
        ) {
        files[i].metadata.content_type
    } else {
        "application/octet-stream"@
    } by {
        law_mime_types_are_kept(files[i].metadata.content_type);
    }
}

/// Where the bytes of a file are cut into chunks does not matter: two chunks do what one
/// with all of their bytes does, and are taken exactly where that one is.
pub proof fn law_chunk_boundaries_do_not_matter(upload: Upload, first: Seq<u8>, second: Seq<u8>)
    requires
        upload.valid(),
        upload.current matches Some(current) && current.received_size + first.len()
            < current.expected_size,
    ensures
        upload.chunked(first) matches Ok(write) && {
            &&& write.chunk == first
            &&& write.done().chunked(second) is Ok <==> upload.chunked(first + second) is Ok
            &&& write.done().chunked(second) matches Ok(next) ==> (upload.chunked(
                first + second,
            ) matches Ok(whole) && next.done() == whole.done() && write.chunk + next.chunk
                == whole.chunk)
        },
{
}

/// A file takes chunks up to its declared size and no further, and is complete exactly
/// when it has that many bytes.
pub proof fn law_files_take_their_declared_size(upload: Upload, chunk: Seq<u8>)
    requires
        upload.valid(),
    ensures
        upload.current is None ==> upload.chunked(chunk) is Err,
        upload.current matches Some(current) ==> {
            let size = current.received_size + chunk.len();
            &&& upload.chunked(chunk) is Ok <==> size <= current.expected_size
            &&& upload.chunked(chunk) matches Ok(write) ==> {
                &&& write.chunk == chunk
                &&& write.done().current is None <==> size == current.expected_size
                &&& write.done().current matches Some(left) ==> {
                    &&& left.expected_size == current.expected_size
                    &&& left.received_size == size
                }
            }
        },
{
}

/// No message changes what was said of the upload as a whole, or a file that was there
/// before it. Only the announcement of a file adds one, at the end.
pub proof fn law_messages_change_nothing_else(
    upload: Upload,
    message: Option<PayloadView>,
    name: Seq<char>,
)
    ensures
        upload.received(message, name) matches Ok(task) ==> {
            let after = match task {
                Task::Create(creation) => creation.done(),
                Task::Write(write) => write.done(),
            };
            &&& after.directory == upload.directory
            &&& after.channel_id == upload.channel_id
            &&& after.expected_count == upload.expected_count
            &&& after.multiple == upload.multiple
            &&& after.stored.len() == upload.stored.len() + if task is Create {
                1int
            } else {
                0int
            }
            &&& forall|i: int|
                0 <= i < upload.stored.len() ==> #[trigger] after.stored[i] == upload.stored[i]
            &&& task matches Task::Create(creation) ==> {
                &&& creation.upload == upload
                &&& after.stored[upload.stored.len() as int] == creation.file
                &&& after.current matches Some(current) && current.received_size == 0
                    && current.expected_size == creation.expected_size
                &&& message matches Some(PayloadView::FileMetadata(file))
                    && creation.expected_size == file.file_size
            }
            &&& task matches Task::Write(write) ==> {
                &&& write.upload == upload
                &&& message == Some(PayloadView::Chunk(write.chunk))
            }
        },
{
}

/// An upload starts with metadata that announces a file or more in a known mode, and
/// with nothing else. It starts with no file, and with what the metadata says.
pub proof fn law_uploads_start_with_metadata(
    directory: Seq<char>,
    first: Option<Option<PayloadView>>,
)
    ensures
        opened(directory, first) is Ok <==> (first matches Some(
            Some(PayloadView::Metadata(metadata)),
        ) && metadata.file_count > 0 && metadata.mode is Some),
        opened(directory, first) matches Ok(start) ==> {
            &&& start.valid()
            &&& start.directory == directory
            &&& start.stored.len() == 0
            &&& start.current is None
            &&& first matches Some(Some(PayloadView::Metadata(metadata))) && {
                &&& start.channel_id == metadata.channel_id
                &&& start.expected_count == metadata.file_count
                &&& start.multiple <==> metadata.mode == Some(MediaMode::Multiple)
            }
        },
        opened(directory, first) matches Err(status) ==> {
            &&& status.code == Code::InvalidArgument
            &&& first is None <==> status.message == "metadata is required"@
            &&& first matches Some(Some(PayloadView::Metadata(metadata))) ==> {
                &&& metadata.file_count == 0 ==> status.message
                    == "at least one media file is required"@
                &&& metadata.file_count > 0 ==> status.message == "invalid media mode"@
            }
            &&& first matches Some(payload) ==> (!(payload matches Some(PayloadView::Metadata(_)))
                ==> status.message == "the first message must be metadata"@)
        },
{
    reveal_strlit("metadata is required");
    reveal_strlit("at least one media file is required");
    reveal_strlit("invalid media mode");
    reveal_strlit("the first message must be metadata");
    assert("metadata is required"@.len() == 20);
}

/// A refused message is answered with the reason, and all files of the upload are to be
/// removed, in order.
pub proof fn law_refusals_give_the_reason(
    upload: Upload,
    message: Option<PayloadView>,
    name: Seq<char>,
)
    ensures
        upload.received(message, name) matches Err(refusal) ==> {
            &&& refusal.status.code == Code::InvalidArgument
            &&& refusal.remove.len() == upload.stored.len()
            &&& forall|i: int|
                0 <= i < upload.stored.len() ==> #[trigger] refusal.remove[i]
                    == upload.stored[i].path
            &&& message is None ==> refusal.status.message == "request payload is required"@
            &&& message matches Some(PayloadView::Metadata(_)) ==> refusal.status.message
                == "metadata can only be sent once"@
            &&& message matches Some(PayloadView::FileMetadata(file)) ==> {
                &&& upload.current is Some ==> refusal.status.message
                    == "the current media file is incomplete"@
                &&& upload.current is None && upload.stored.len() >= upload.expected_count
                    ==> refusal.status.message == "file count exceeds metadata"@
                &&& upload.current is None && upload.stored.len() < upload.expected_count
                    ==> file.file_size == 0 && refusal.status.message
                    == "media files cannot be empty"@
            }
            &&& message matches Some(PayloadView::Chunk(chunk)) ==> match upload.current {
                None => refusal.status.message == "file metadata must precede chunks"@,
                Some(current) => {
                    &&& current.received_size + chunk.len() > u64::MAX ==> refusal.status.message
                        == "media file size overflow"@
                    &&& current.received_size + chunk.len() <= u64::MAX ==> refusal.status.message
                        == "media file exceeds its declared size"@
                },
            }
        },
        message is None ==> upload.received(message, name) is Err,
        message matches Some(PayloadView::Metadata(_)) ==> upload.received(message, name) is Err,
        message matches Some(PayloadView::FileMetadata(file)) ==> (upload.received(message, name)
            is Ok <==> upload.current is None && upload.stored.len() < upload.expected_count
            && file.file_size > 0),
        message matches Some(PayloadView::Chunk(chunk)) ==> (upload.received(message, name) is Ok
            <==> (upload.current matches Some(current) && current.received_size + chunk.len()
            <= current.expected_size)),
{
}

/// An upload ends well exactly when its last file is complete and as many files have come
/// as announced; its files are then sent on, all of them and in order. Otherwise they are
/// to be removed.
pub proof fn law_uploads_end_complete_or_not_at_all(upload: Upload)
    ensures
        match upload.ended() {
            Ok(media) => {
                &&& upload.current is None && upload.stored.len() == upload.expected_count
                &&& media.channel_id == upload.channel_id
                &&& media.multiple == upload.multiple
                &&& media.files.len() == upload.stored.len()
                &&& forall|i: int|
                    0 <= i < upload.stored.len() ==> #[trigger] media.files[i] == upload.stored[i]
            },
            Err(refusal) => {
                &&& upload.current is Some || upload.stored.len() != upload.expected_count
                &&& refusal.status.code == Code::InvalidArgument
                &&& upload.current is Some ==> refusal.status.message
                    == "the final media file is incomplete"@
                &&& upload.current is None ==> refusal.status.message
                    == "file count does not match metadata"@
                &&& refusal.remove.len() == upload.stored.len()
                &&& forall|i: int|
                    0 <= i < upload.stored.len() ==> #[trigger] refusal.remove[i]
                        == upload.stored[i].path
            },
        },
{
}

/// Where a file or a chunk cannot be stored, the server is at fault, and all files of the
/// upload are to be removed, in order.
pub proof fn law_storage_failures_remove_the_upload(upload: Upload, error: Seq<char>)
    ensures
        ({
            let refusal = upload.refused(internal(storage_failure(error)));
            &&& refusal.status.code == Code::Internal
            &&& refusal.status.message == "failed to store media file: "@ + error
            &&& refusal.remove.len() == upload.stored.len()
            &&& forall|i: int|
                0 <= i < upload.stored.len() ==> #[trigger] refusal.remove[i]
                    == upload.stored[i].path
        }),
{
}

} // verus!
