//! Uploads that arrive as one message.
//!
//! The files are written one after the other. [`Storing`] is an upload between two
//! files, [`Pending`] one that waits for a file to be written.

use vstd::prelude::*;
use vstd::string::*;

use crate::media::{
    effective_mime, law_mime_types_are_kept, mime_or_default, paths, paths_of, storage_error,
    storage_failure, MediaFile, MediaFileView,
};
use crate::names::{fresh_name, is_random_uuid, lemma_random_uuids_exist};
use crate::status::{internal, invalid_argument, result_view, ArisaError, Code, StatusView};
use crate::text::{is_white_space, join_path, joined};

verus! {

/// A file as it was sent.
#[derive(Debug, PartialEq, Eq)]
pub struct SentMedia {
    pub data: Vec<u8>,
    pub mime: String,
    pub name: Option<String>,
}

/// What a [`SentMedia`] holds.
pub struct SentMediaView {
    pub data: Seq<u8>,
    pub mime: Seq<char>,
    pub name: Option<Seq<char>>,
}

impl DeepView for SentMedia {
    type V = SentMediaView;

    open spec fn deep_view(&self) -> SentMediaView {
        SentMediaView { data: self.data@, mime: self.mime@, name: self.name.deep_view() }
    }
}

// ---------------------------------------------------------------------------
// The model of an upload
// ---------------------------------------------------------------------------

/// An upload between two files.
pub struct Batch {
    pub directory: Seq<char>,
    /// The files written so far, in order.
    pub stored: Seq<MediaFileView>,
    /// The files still to be written, in order.
    pub remaining: Seq<SentMediaView>,
}

/// An upload that goes on once `data` has been written to the path of `file`.
pub struct BatchWrite {
    pub directory: Seq<char>,
    pub stored: Seq<MediaFileView>,
    pub remaining: Seq<SentMediaView>,
    pub file: MediaFileView,
    pub data: Seq<u8>,
}

/// What is to be done next.
pub enum BatchTask {
    Write(BatchWrite),
    Done(Seq<MediaFileView>),
}

/// The end of an upload that failed: the error, and the files to remove.
pub struct BatchFailure {
    pub error: StatusView,
    pub remove: Seq<Seq<char>>,
}

/// The file that `sent` is stored as, at `path`.
pub open spec fn stored_media(sent: SentMediaView, path: Seq<char>) -> MediaFileView {
    MediaFileView { path, mime: effective_mime(sent.mime), name: sent.name }
}

/// How an upload starts.
pub open spec fn batch(directory: Seq<char>, files: Seq<SentMediaView>) -> Result<
    Batch,
    BatchFailure,
> {
    if files.len() == 0 {
        Err(
            BatchFailure {
                error: invalid_argument("at least one media file is required"@),
                remove: Seq::empty(),
            },
        )
    } else {
        Ok(Batch { directory, stored: Seq::empty(), remaining: files })
    }
}

impl Batch {
    /// What is to be done next; the next file would be called `name`.
    pub open spec fn next(self, name: Seq<char>) -> Result<BatchTask, BatchFailure> {
        if self.remaining.len() == 0 {
            Ok(BatchTask::Done(self.stored))
        } else if self.remaining.first().data.len() == 0 {
            Err(
                BatchFailure {
                    error: invalid_argument("media files cannot be empty"@),
                    remove: paths(self.stored),
                },
            )
        } else {
            Ok(
                BatchTask::Write(
                    BatchWrite {
                        directory: self.directory,
                        stored: self.stored,
                        remaining: self.remaining.drop_first(),
                        file: stored_media(
                            self.remaining.first(),
                            joined(self.directory, name),
                        ),
                        data: self.remaining.first().data,
                    },
                ),
            )
        }
    }
}

impl BatchWrite {
    /// The file has been written.
    pub open spec fn done(self) -> Batch {
        Batch {
            directory: self.directory,
            stored: self.stored.push(self.file),
            remaining: self.remaining,
        }
    }

    /// The file could not be written: those before it are to be removed.
    pub open spec fn failure(self, error: Seq<char>) -> BatchFailure {
        BatchFailure { error: internal(storage_failure(error)), remove: paths(self.stored) }
    }
}

// ---------------------------------------------------------------------------
// The upload itself
// ---------------------------------------------------------------------------

/// An upload between two files.
#[derive(Debug, PartialEq, Eq)]
pub struct Storing {
    pub directory: String,
    pub stored: Vec<MediaFile>,
    /// The files still to be written, the next one last.
    pub backlog: Vec<SentMedia>,
}

impl View for Storing {
    type V = Batch;

    open spec fn view(&self) -> Batch {
        Batch {
            directory: self.directory@,
            stored: self.stored.deep_view(),
            remaining: self.backlog.deep_view().reverse(),
        }
    }
}

/// An upload that waits for `data` to be written to the path of `file`.
#[derive(Debug, PartialEq, Eq)]
pub struct Pending {
    pub directory: String,
    pub stored: Vec<MediaFile>,
    /// The files still to be written after this one, the next one last.
    pub backlog: Vec<SentMedia>,
    pub file: MediaFile,
    pub data: Vec<u8>,
}

impl View for Pending {
    type V = BatchWrite;

    open spec fn view(&self) -> BatchWrite {
        BatchWrite {
            directory: self.directory@,
            stored: self.stored.deep_view(),
            remaining: self.backlog.deep_view().reverse(),
            file: self.file@,
            data: self.data@,
        }
    }
}

/// What is to be done next.
#[derive(Debug, PartialEq, Eq)]
pub enum StoreStep {
    Write(Pending),
    Done(Vec<MediaFile>),
}

impl View for StoreStep {
    type V = BatchTask;

    open spec fn view(&self) -> BatchTask {
        match self {
            StoreStep::Write(pending) => BatchTask::Write(pending@),
            StoreStep::Done(files) => BatchTask::Done(files.deep_view()),
        }
    }
}

/// The end of an upload that failed: the error, and the files to remove.
#[derive(Debug, PartialEq, Eq)]
pub struct StoreFailure {
    pub error: ArisaError,
    pub remove: Vec<String>,
}

impl View for StoreFailure {
    type V = BatchFailure;

    open spec fn view(&self) -> BatchFailure {
        BatchFailure { error: self.error@, remove: self.remove.deep_view() }
    }
}

/// Starts to store `files` in `directory`. Each file gets a fresh random name, which is
/// drawn once nothing speaks against the file. The draw panics where the system has no
/// random numbers to give.
pub fn store(directory: String, files: Vec<SentMedia>) -> (res: Result<StoreStep, StoreFailure>)
    ensures
        match batch(directory@, files.deep_view()) {
            Err(failure) => result_view(res) == Err::<BatchTask, _>(failure),
            Ok(start) => exists|name: Seq<char>| #[trigger]
                is_random_uuid(name) && result_view(res) == start.next(name),
        },
        files@.len() == 0 ==> (res matches Err(failure) && {
            &&& failure.error matches ArisaError::InvalidArgument(message) && message@
                == "at least one media file is required"@
            &&& failure.remove@.len() == 0
        }),
        files@.len() > 0 && files@[0].data@.len() == 0 ==> (res matches Err(failure) && {
            &&& failure.error matches ArisaError::InvalidArgument(message) && message@
                == "media files cannot be empty"@
            &&& failure.remove@.len() == 0
        }),
        files@.len() > 0 && files@[0].data@.len() > 0 ==> (res matches Ok(StoreStep::Write(pending))
            && {
            &&& pending.directory == directory
            &&& pending.stored@.len() == 0
            &&& pending.backlog@ == files@.drop_first().reverse()
            &&& pending.data == files@[0].data
            &&& pending.file.name == files@[0].name
            &&& (exists|i: int|
                0 <= i < files@[0].mime@.len() && !is_white_space(#[trigger] files@[0].mime@[i]))
                ==> pending.file.mime == files@[0].mime
            &&& (forall|i: int|
                0 <= i < files@[0].mime@.len() ==> is_white_space(#[trigger] files@[0].mime@[i]))
                ==> pending.file.mime@ == "application/octet-stream"@
            &&& exists|name: Seq<char>| #[trigger]
                is_random_uuid(name) && pending.file.path@ == joined(directory@, name)
        }),
{
    match Storing::new(directory, files) {
        Err(failure) => Err(failure),
        Ok(storing) => storing.next(),
    }
}

impl Storing {
    /// An upload of `files` into `directory`, before the first of them.
    pub fn new(directory: String, files: Vec<SentMedia>) -> (res: Result<Storing, StoreFailure>)
        ensures
            result_view(res) == batch(directory@, files.deep_view()),
            res is Err <==> files@.len() == 0,
            res matches Err(failure) ==> {
                &&& failure.error matches ArisaError::InvalidArgument(message) && message@
                    == "at least one media file is required"@
                &&& failure.remove@.len() == 0
            },
            res matches Ok(storing) ==> {
                &&& storing.directory == directory
                &&& storing.stored@.len() == 0
                &&& storing.backlog@ == files@.reverse()
            },
    {
        let stored: Vec<MediaFile> = Vec::new();
        assert(stored.deep_view() =~= Seq::empty());
        if files.len() == 0 {
            let error = ArisaError::InvalidArgument(
                "at least one media file is required".to_owned(),
            );
            assert(paths(stored.deep_view()) =~= Seq::empty());
            return Err(StoreFailure { error, remove: paths_of(&stored) });
        }
        let mut rest = files;
        let mut backlog: Vec<SentMedia> = Vec::new();
        assert(files@ =~= rest@ + backlog@.reverse());
        while rest.len() > 0
            invariant
                files@ == rest@ + backlog@.reverse(),
            decreases rest@.len(),
        {
            let ghost whole = rest@ + backlog@.reverse();
            if let Some(file) = rest.pop() {
                backlog.push(file);
            }
            assert(whole =~= rest@ + backlog@.reverse());
        }
        assert(files@ =~= backlog@.reverse());
        assert(backlog@ =~= files@.reverse());
        assert(files.deep_view() =~= backlog.deep_view().reverse());
        Ok(Storing { directory, stored, backlog })
    }

    fn reject_empty(&self) -> (res: StoreFailure)
        ensures
            res@ == (BatchFailure {
                error: invalid_argument("media files cannot be empty"@),
                remove: paths(self@.stored),
            }),
            res.error matches ArisaError::InvalidArgument(message) && message@
                == "media files cannot be empty"@,
            res.remove@.len() == self.stored@.len(),
            forall|i: int|
                0 <= i < self.stored@.len() ==> (#[trigger] res.remove@[i])@ == self.stored@[i].path@,
    {
        StoreFailure {
            error: ArisaError::InvalidArgument("media files cannot be empty".to_owned()),
            remove: paths_of(&self.stored),
        }
    }

    /// Turns to the next file, which is to be called `name`.
    pub fn next_named(self, name: &str) -> (res: Result<StoreStep, StoreFailure>)
        ensures
            result_view(res) == self@.next(name@),
            self.backlog@.len() == 0 ==> res == Ok::<_, StoreFailure>(
                StoreStep::Done(self.stored),
            ),
            self.backlog@.len() > 0 && self.backlog@.last().data@.len() == 0 ==> (res matches Err(
                failure,
            ) && {
                &&& failure.error matches ArisaError::InvalidArgument(message) && message@
                    == "media files cannot be empty"@
                &&& failure.remove@.len() == self.stored@.len()
                &&& forall|i: int|
                    0 <= i < self.stored@.len() ==> (#[trigger] failure.remove@[i])@ == self.stored@[i].path@
            }),
            self.backlog@.len() > 0 && self.backlog@.last().data@.len() > 0 ==> (res matches Ok(
                StoreStep::Write(pending),
            ) && {
                &&& pending.directory == self.directory
                &&& pending.stored == self.stored
                &&& pending.backlog@ == self.backlog@.drop_last()
                &&& pending.data == self.backlog@.last().data
                &&& pending.file.name == self.backlog@.last().name
                &&& (exists|i: int|
                    0 <= i < self.backlog@.last().mime@.len() && !is_white_space(#[trigger] self.backlog@.last().mime@[i]))
                    ==> pending.file.mime == self.backlog@.last().mime
                &&& (forall|i: int|
                    0 <= i < self.backlog@.last().mime@.len() ==> is_white_space(#[trigger] self.backlog@.last().mime@[i]))
                    ==> pending.file.mime@ == "application/octet-stream"@
                &&& pending.file.path@ == joined(self.directory@, name@)
            }),
    {
        let n: usize = self.backlog.len();
        if n > 0 && self.backlog[n - 1].data.len() == 0 {
            assert(self@.remaining.first() == self.backlog@[n - 1].deep_view());
            return Err(self.reject_empty());
        }
        let mut backlog = self.backlog;
        match backlog.pop() {
            None => Ok(StoreStep::Done(self.stored)),
            Some(sent) => {
                assert(self@.remaining.first() == sent.deep_view());
                assert(backlog.deep_view().reverse() =~= self@.remaining.drop_first());
                let path = join_path(&self.directory, name);
                let file = MediaFile { path, mime: mime_or_default(sent.mime), name: sent.name };
                Ok(
                    StoreStep::Write(
                        Pending {
                            directory: self.directory,
                            stored: self.stored,
                            backlog,
                            file,
                            data: sent.data,
                        },
                    ),
                )
            },
        }
    }

    /// Turns to the next file, under a fresh random name, which is drawn once nothing
    /// speaks against the file.
    fn next(self) -> (res: Result<StoreStep, StoreFailure>)
        ensures
            exists|name: Seq<char>| #[trigger]
                is_random_uuid(name) && result_view(res) == self@.next(name),
            self.backlog@.len() == 0 ==> res == Ok::<_, StoreFailure>(
                StoreStep::Done(self.stored),
            ),
            self.backlog@.len() > 0 && self.backlog@.last().data@.len() == 0 ==> (res matches Err(
                failure,
            ) && {
                &&& failure.error matches ArisaError::InvalidArgument(message) && message@
                    == "media files cannot be empty"@
                &&& failure.remove@.len() == self.stored@.len()
                &&& forall|i: int|
                    0 <= i < self.stored@.len() ==> (#[trigger] failure.remove@[i])@ == self.stored@[i].path@
            }),
            self.backlog@.len() > 0 && self.backlog@.last().data@.len() > 0 ==> (res matches Ok(
                StoreStep::Write(pending),
            ) && {
                &&& pending.directory == self.directory
                &&& pending.stored == self.stored
                &&& pending.backlog@ == self.backlog@.drop_last()
                &&& pending.data == self.backlog@.last().data
                &&& pending.file.name == self.backlog@.last().name
                &&& (exists|i: int|
                    0 <= i < self.backlog@.last().mime@.len() && !is_white_space(#[trigger] self.backlog@.last().mime@[i]))
                    ==> pending.file.mime == self.backlog@.last().mime
                &&& (forall|i: int|
                    0 <= i < self.backlog@.last().mime@.len() ==> is_white_space(#[trigger] self.backlog@.last().mime@[i]))
                    ==> pending.file.mime@ == "application/octet-stream"@
                &&& exists|name: Seq<char>| #[trigger]
                    is_random_uuid(name) && pending.file.path@ == joined(self.directory@, name)
            }),
    {
        proof {
            lemma_random_uuids_exist();
        }
        let n: usize = self.backlog.len();
        if n == 0 {
            return Ok(StoreStep::Done(self.stored));
        }
        if self.backlog[n - 1].data.len() == 0 {
            assert(self@.remaining.first() == self.backlog@[n - 1].deep_view());
            return Err(self.reject_empty());
        }
        let name = fresh_name();
        assert(is_random_uuid(name@));
        self.next_named(&name)
    }
}

impl Pending {
    /// The upload with this file written, before the next one.
    pub fn done(self) -> (res: Storing)
        ensures
            res@ == self@.done(),
            res.directory == self.directory,
            res.stored@ == self.stored@.push(self.file),
            res.backlog == self.backlog,
    {
        let mut stored = self.stored;
        stored.push(self.file);
        assert(stored.deep_view() =~= self@.stored.push(self@.file));
        Storing { directory: self.directory, stored, backlog: self.backlog }
    }

    /// The file has been written; turns to the next one, under a fresh random name, which
    /// is drawn once nothing speaks against the file. The draw panics where the system has
    /// no random numbers to give.
    pub fn written(self) -> (res: Result<StoreStep, StoreFailure>)
        ensures
            exists|name: Seq<char>| #[trigger]
                is_random_uuid(name) && result_view(res) == self@.done().next(name),
            self.backlog@.len() == 0 ==> (res matches Ok(StoreStep::Done(files)) && files@
                == self.stored@.push(self.file)),
            self.backlog@.len() > 0 && self.backlog@.last().data@.len() == 0 ==> (res matches Err(
                failure,
            ) && {
                &&& failure.error matches ArisaError::InvalidArgument(message) && message@
                    == "media files cannot be empty"@
                &&& failure.remove@.len() == self.stored@.len() + 1
                &&& forall|i: int|
                    0 <= i < self.stored@.len() ==> (#[trigger] failure.remove@[i])@
                        == self.stored@[i].path@
                &&& failure.remove@[self.stored@.len() as int]@ == self.file.path@
            }),
            self.backlog@.len() > 0 && self.backlog@.last().data@.len() > 0 ==> (res matches Ok(
                StoreStep::Write(pending),
            ) && {
                &&& pending.directory == self.directory
                &&& pending.stored@ == self.stored@.push(self.file)
                &&& pending.backlog@ == self.backlog@.drop_last()
                &&& pending.data == self.backlog@.last().data
                &&& pending.file.name == self.backlog@.last().name
                &&& (exists|i: int|
                    0 <= i < self.backlog@.last().mime@.len() && !is_white_space(#[trigger] self.backlog@.last().mime@[i]))
                    ==> pending.file.mime == self.backlog@.last().mime
                &&& (forall|i: int|
                    0 <= i < self.backlog@.last().mime@.len() ==> is_white_space(#[trigger] self.backlog@.last().mime@[i]))
                    ==> pending.file.mime@ == "application/octet-stream"@
                &&& exists|name: Seq<char>| #[trigger]
                    is_random_uuid(name) && pending.file.path@ == joined(self.directory@, name)
            }),
    {
        self.done().next()
    }

    /// The file could not be written. Only the files before it are to be removed.
    pub fn failed(self, error: &str) -> (res: StoreFailure)
        ensures
            res@ == self@.failure(error@),
            res.error matches ArisaError::Internal(message) && message@
                == "failed to store media file: "@ + error@,
            res.remove@.len() == self.stored@.len(),
            forall|i: int|
                0 <= i < self.stored@.len() ==> (#[trigger] res.remove@[i])@ == self.stored@[i].path@,
    {
        StoreFailure {
            error: ArisaError::Internal(storage_error(error)),
            remove: paths_of(&self.stored),
        }
    }
}

// ---------------------------------------------------------------------------
// Laws
// ---------------------------------------------------------------------------

/// What becomes of a batch where every file can be written and the `i`-th one is
/// called `names[i]`.
pub open spec fn batch_outcome(start: Batch, names: Seq<Seq<char>>) -> Result<
    Seq<MediaFileView>,
    BatchFailure,
>
    decreases start.remaining.len(),
{
    match start.next(names[start.stored.len() as int]) {
        Err(failure) => Err(failure),
        Ok(BatchTask::Done(files)) => Ok(files),
        Ok(BatchTask::Write(write)) => batch_outcome(write.done(), names),
    }
}

/// What is written for such a batch: each path with its contents, in order.
pub open spec fn batch_writes(start: Batch, names: Seq<Seq<char>>) -> Seq<(Seq<char>, Seq<u8>)>
    decreases start.remaining.len(),
{
    match start.next(names[start.stored.len() as int]) {
        Ok(BatchTask::Write(write)) => seq![(write.file.path, write.data)] + batch_writes(
            write.done(),
            names,
        ),
        _ => Seq::empty(),
    }
}

/// The files that `sent` are stored as, under `names` from the `from`-th on.
pub open spec fn stored_as(
    directory: Seq<char>,
    sent: Seq<SentMediaView>,
    names: Seq<Seq<char>>,
    from: int,
) -> Seq<MediaFileView> {
    Seq::new(sent.len(), |i: int| stored_media(sent[i], joined(directory, names[from + i])))
}

/// The number of files before the first empty one.
pub open spec fn filled(sent: Seq<SentMediaView>) -> nat
    decreases sent.len(),
{
    if sent.len() == 0 || sent.first().data.len() == 0 {
        0
    } else {
        1 + filled(sent.drop_first())
    }
}

/// All files are stored, in the order in which they were sent, where none of them is
/// empty. Otherwise those before the first empty one are written, and removed again.
pub proof fn law_batches_are_stored_or_removed(start: Batch, names: Seq<Seq<char>>)
    ensures
        ({
            let n = filled(start.remaining);
            let stored = start.stored + stored_as(
                start.directory,
                start.remaining.take(n as int),
                names,
                start.stored.len() as int,
            );
            &&& n <= start.remaining.len()
            &&& n == start.remaining.len() <==> forall|i: int|
                0 <= i < start.remaining.len() ==> (#[trigger] start.remaining[i]).data.len() > 0
            &&& batch_outcome(start, names) == if n == start.remaining.len() {
                Ok::<_, BatchFailure>(stored)
            } else {
                Err(
                    BatchFailure {
                        error: invalid_argument("media files cannot be empty"@),
                        remove: paths(stored),
                    },
                )
            }
            &&& batch_writes(start, names) == Seq::new(
                n,
                |i: int|
                    (
                        joined(start.directory, names[start.stored.len() + i]),
                        start.remaining[i].data,
                    ),
            )
        }),
    decreases start.remaining.len(),
{
    let n = filled(start.remaining);
    if start.remaining.len() == 0 || start.remaining.first().data.len() == 0 {
        assert(start.stored + stored_as(
            start.directory,
            start.remaining.take(0),
            names,
            start.stored.len() as int,
        ) =~= start.stored);
        if start.remaining.len() > 0 {
            assert(start.remaining[0].data.len() == 0);
        }
        assert(batch_writes(start, names) =~= Seq::empty());
    } else {
        let write = start.next(names[start.stored.len() as int])->Ok_0->Write_0;
        let rest = write.done();
        law_batches_are_stored_or_removed(rest, names);
        let m = filled(rest.remaining);
        assert(n == 1 + m);
        assert(start.stored + stored_as(
            start.directory,
            start.remaining.take(n as int),
            names,
            start.stored.len() as int,
        ) =~= rest.stored + stored_as(
            rest.directory,
            rest.remaining.take(m as int),
            names,
            rest.stored.len() as int,
        ));
        assert forall|i: int| 0 <= i < rest.remaining.len() implies #[trigger] rest.remaining[i]
            == start.remaining[i + 1] by {}
        assert((forall|i: int|
            0 <= i < rest.remaining.len() ==> (#[trigger] rest.remaining[i]).data.len() > 0) ==> (
        forall|i: int|
            0 <= i < start.remaining.len() ==> (#[trigger] start.remaining[i]).data.len() > 0)) by {
            if forall|i: int|
                0 <= i < rest.remaining.len() ==> (#[trigger] rest.remaining[i]).data.len() > 0 {
                assert forall|i: int| 0 <= i < start.remaining.len() implies (
                #[trigger] start.remaining[i]).data.len() > 0 by {
                    if i > 0 {
                        assert(rest.remaining[i - 1].data.len() > 0);
                    }
                }
            }
        }
        assert(batch_writes(start, names) =~= Seq::new(
            n,
            |i: int|
                (
                    joined(start.directory, names[start.stored.len() + i]),
                    start.remaining[i].data,
                ),
        ));
    }
}

/// A batch of which `count` files have been written.
pub open spec fn batch_after(start: Batch, count: nat, names: Seq<Seq<char>>) -> Batch
    decreases count,
{
    if count == 0 {
        start
    } else {
        match start.next(names[start.stored.len() as int]) {
            Ok(BatchTask::Write(write)) => batch_after(write.done(), (count - 1) as nat, names),
            _ => start,
        }
    }
}

/// Where a file cannot be written, exactly the files written before it are removed.
pub proof fn law_failed_batches_leave_nothing(
    start: Batch,
    count: nat,
    names: Seq<Seq<char>>,
    error: Seq<char>,
)
    requires
        count < filled(start.remaining),
    ensures
        ({
            let reached = batch_after(start, count, names);
            let stored = start.stored + stored_as(
                start.directory,
                start.remaining.take(count as int),
                names,
                start.stored.len() as int,
            );
            &&& reached.next(names[reached.stored.len() as int]) matches Ok(BatchTask::Write(write))
            &&& write.data == start.remaining[count as int].data
            &&& write.failure(error) == BatchFailure {
                error: internal(storage_failure(error)),
                remove: paths(stored),
            }
        }),
    decreases count,
{
    if count == 0 {
        assert(start.stored + stored_as(
            start.directory,
            start.remaining.take(0),
            names,
            start.stored.len() as int,
        ) =~= start.stored);
    } else {
        let write = start.next(names[start.stored.len() as int])->Ok_0->Write_0;
        let rest = write.done();
        law_batches_are_stored_or_removed(start, names);
        law_failed_batches_leave_nothing(rest, (count - 1) as nat, names, error);
        assert(start.stored + stored_as(
            start.directory,
            start.remaining.take(count as int),
            names,
            start.stored.len() as int,
        ) =~= rest.stored + stored_as(
            rest.directory,
            rest.remaining.take(count - 1),
            names,
            rest.stored.len() as int,
        ));
    }
}

/// What becomes of a request to store `files` in `directory`, where every file can be
/// written and the `i`-th one is called `names[i]`.
pub open spec fn request_outcome(
    directory: Seq<char>,
    files: Seq<SentMediaView>,
    names: Seq<Seq<char>>,
) -> Result<Seq<MediaFileView>, BatchFailure> {
    match batch(directory, files) {
        Err(failure) => Err(failure),
        Ok(start) => batch_outcome(start, names),
    }
}

/// What is written for such a request: each path with its contents, in order.
pub open spec fn request_writes(
    directory: Seq<char>,
    files: Seq<SentMediaView>,
    names: Seq<Seq<char>>,
) -> Seq<(Seq<char>, Seq<u8>)> {
    match batch(directory, files) {
        Err(_) => Seq::empty(),
        Ok(start) => batch_writes(start, names),
    }
}

/// A request with files, none of them empty, has all of them stored, in the order in
/// which they were sent: each with its name and its MIME type letter for letter, or the
/// default for a blank one, and each with its bytes written to its path.
pub proof fn law_every_file_of_a_request_is_stored(
    directory: Seq<char>,
    files: Seq<SentMediaView>,
    names: Seq<Seq<char>>,
)
    requires
        files.len() > 0,
        forall|i: int| 0 <= i < files.len() ==> (#[trigger] files[i]).data.len() > 0,
    ensures
        request_outcome(directory, files, names) matches Ok(stored) && {
            let writes = request_writes(directory, files, names);
            &&& stored.len() == files.len()
            &&& writes.len() == files.len()
            &&& forall|i: int|
                0 <= i < files.len() ==> (#[trigger] stored[i]).name == files[i].name
            &&& forall|i: int|
                0 <= i < files.len() ==> (#[trigger] stored[i]).mime == if exists|j: int|
                    0 <= j < files[i].mime.len() && !is_white_space(#[trigger] files[i].mime[j]) {
                    files[i].mime
                } else {
                    "application/octet-stream"@
                }
            &&& forall|i: int|
                0 <= i < files.len() ==> (#[trigger] stored[i]).path == joined(directory, names[i])
            &&& forall|i: int|
                0 <= i < files.len() ==> (#[trigger] writes[i]).0 == stored[i].path && writes[i].1
                    == files[i].data
        },
{
    let start = batch(directory, files)->Ok_0;
    law_batches_are_stored_or_removed(start, names);
    assert(files.take(files.len() as int) =~= files);
    let stored = request_outcome(directory, files, names)->Ok_0;
    assert forall|i: int| 0 <= i < files.len() implies (#[trigger] stored[i]).mime == if exists|
        j: int,
    |
        0 <= j < files[i].mime.len() && !is_white_space(#[trigger] files[i].mime[j]) {
        files[i].mime
    } else {
        "application/octet-stream"@
    } by {
        law_mime_types_are_kept(files[i].mime);
    }
}

proof fn lemma_filled_up_to(sent: Seq<SentMediaView>, count: nat)
    requires
        count <= sent.len(),
        forall|i: int| 0 <= i < count ==> (#[trigger] sent[i]).data.len() > 0,
    ensures
        filled(sent) >= count,
        count < sent.len() && sent[count as int].data.len() == 0 ==> filled(sent) == count,
    decreases count,
{
    if count > 0 {
        let rest = sent.drop_first();
        assert(sent[0].data.len() > 0);
        assert forall|i: int| 0 <= i < count - 1 implies (#[trigger] rest[i]).data.len() > 0 by {
            assert(sent[i + 1].data.len() > 0);
        }
        lemma_filled_up_to(rest, (count - 1) as nat);
    }
}

/// A request without files is refused, and nothing is written for it.
pub proof fn law_requests_without_files_are_refused(directory: Seq<char>, names: Seq<Seq<char>>)
    ensures
        request_outcome(directory, Seq::empty(), names) matches Err(failure) && {
            &&& failure.error.code == Code::InvalidArgument
            &&& failure.error.message == "at least one media file is required"@
            &&& failure.remove.len() == 0
        },
        request_writes(directory, Seq::empty(), names).len() == 0,
{
}

/// A request is refused at its first empty file. The files before it have been written by
/// then; exactly those are to be removed.
pub proof fn law_requests_are_refused_at_an_empty_file(
    directory: Seq<char>,
    files: Seq<SentMediaView>,
    names: Seq<Seq<char>>,
    count: nat,
)
    requires
        count < files.len(),
        files[count as int].data.len() == 0,
        forall|i: int| 0 <= i < count ==> (#[trigger] files[i]).data.len() > 0,
    ensures
        request_outcome(directory, files, names) matches Err(failure) && {
            let writes = request_writes(directory, files, names);
            &&& failure.error.code == Code::InvalidArgument
            &&& failure.error.message == "media files cannot be empty"@
            &&& failure.remove.len() == count
            &&& writes.len() == count
            &&& forall|i: int|
                0 <= i < count ==> #[trigger] failure.remove[i] == joined(directory, names[i])
            &&& forall|i: int|
                0 <= i < count ==> (#[trigger] writes[i]).0 == failure.remove[i] && writes[i].1
                    == files[i].data
        },
{
    lemma_filled_up_to(files, count);
    let start = batch(directory, files)->Ok_0;
    law_batches_are_stored_or_removed(start, names);
}

/// Where a file of a request cannot be written, the server is at fault, and exactly the
/// files before it are to be removed.
pub proof fn law_requests_fail_with_the_file_that_cannot_be_written(
    directory: Seq<char>,
    files: Seq<SentMediaView>,
    names: Seq<Seq<char>>,
    count: nat,
    error: Seq<char>,
)
    requires
        count < files.len(),
        forall|i: int| 0 <= i <= count ==> (#[trigger] files[i]).data.len() > 0,
    ensures
        batch(directory, files) matches Ok(start) && {
            &&& batch_after(start, count, names).next(names[count as int]) matches Ok(
                BatchTask::Write(write),
            )
            &&& write.data == files[count as int].data
            &&& write.file.path == joined(directory, names[count as int])
            &&& write.failure(error).error.code == Code::Internal
            &&& write.failure(error).error.message == "failed to store media file: "@ + error
            &&& write.failure(error).remove.len() == count
            &&& forall|i: int|
                0 <= i < count ==> #[trigger] write.failure(error).remove[i] == joined(
                    directory,
                    names[i],
                )
        },
{
    lemma_filled_up_to(files, count + 1);
    let start = batch(directory, files)->Ok_0;
    law_failed_batches_leave_nothing(start, count, names, error);
    lemma_batch_after(start, count, names);
}

proof fn lemma_batch_after(start: Batch, count: nat, names: Seq<Seq<char>>)
    requires
        count < filled(start.remaining),
    ensures
        batch_after(start, count, names).directory == start.directory,
        batch_after(start, count, names).stored.len() == start.stored.len() + count,
    decreases count,
{
    if count > 0 {
        let write = start.next(names[start.stored.len() as int])->Ok_0->Write_0;
        lemma_batch_after(write.done(), (count - 1) as nat, names);
    }
}

} // verus!
