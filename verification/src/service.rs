//! How requests are answered.

use vstd::prelude::*;
use vstd::string::*;

use crate::media::chunks::{opened, store_chunks, Payload, Receiving, Refusal, Rejected};
use crate::media::whole::{batch, store, BatchTask, SentMedia, SentMediaView, StoreStep};
use crate::media::{MediaFile, MediaFileView, MediaMode, StoredMedia, StoredMediaView};
use crate::names::{is_random_uuid, lemma_random_uuids_exist};
use crate::status::{
    internal, invalid_argument, result_view, unavailable, Code, Status, StatusView,
};
use crate::text;

verus! {

/// The number of rows that a query gives at most, unless another is asked for.
pub const DEFAULT_QUERY_LIMIT: i64 = 100;

/// The least number of rows that a query can be limited to.
pub const MIN_QUERY_LIMIT: i64 = 1;

/// The greatest number of rows that a query can be limited to.
pub const MAX_QUERY_LIMIT: i64 = 10_000;

// ---------------------------------------------------------------------------
// Requests and actions
// ---------------------------------------------------------------------------

/// Asks for a message to be sent.
#[derive(Debug, PartialEq, Eq)]
pub struct ReplyRequest {
    pub channel_id: i64,
    pub message: String,
    pub thread_id: Option<i64>,
}

/// Asks for a channel to be marked as read.
#[derive(Clone, Copy, Debug, PartialEq, Eq, Structural)]
pub struct MarkReadRequest {
    pub channel_id: i64,
}

/// Asks for a channel to be entered.
#[derive(Clone, Copy, Debug, PartialEq, Eq, Structural)]
pub struct EnterChannelRequest {
    pub channel_id: i64,
}

/// Asks for files to be sent.
#[derive(Debug, PartialEq, Eq)]
pub struct SendMediaRequest {
    pub channel_id: i64,
    pub files: Vec<SentMedia>,
    /// `None` where the sender's number stands for no mode.
    pub mode: Option<MediaMode>,
}

/// Asks for the rows that an SQL statement gives.
#[derive(Debug, PartialEq, Eq)]
pub struct RawQueryRequest {
    pub sql: String,
    pub limit: Option<i64>,
}

/// A statement to be run, and how many of its rows to give at most.
#[derive(Debug, PartialEq, Eq)]
pub struct RawQuery {
    pub sql: String,
    pub limit: usize,
}

/// What a [`RawQuery`] holds.
pub struct RawQueryView {
    pub sql: Seq<char>,
    pub limit: int,
}

impl View for RawQuery {
    type V = RawQueryView;

    open spec fn view(&self) -> RawQueryView {
        RawQueryView { sql: self.sql@, limit: self.limit as int }
    }
}

/// What the application is to be told to do.
#[derive(Debug, PartialEq, Eq)]
pub enum Action {
    Reply { channel_id: i64, message: String, thread_id: Option<i64> },
    MarkRead { channel_id: i64 },
    EnterChannel { channel_id: i64 },
    SendMedia { channel_id: i64, files: Vec<MediaFile>, multiple: bool },
}

/// What an [`Action`] holds.
pub enum ActionView {
    Reply { channel_id: i64, message: Seq<char>, thread_id: Option<i64> },
    MarkRead { channel_id: i64 },
    EnterChannel { channel_id: i64 },
    SendMedia { channel_id: i64, files: Seq<MediaFileView>, multiple: bool },
}

impl View for Action {
    type V = ActionView;

    open spec fn view(&self) -> ActionView {
        match self {
            Action::Reply { channel_id, message, thread_id } => ActionView::Reply {
                channel_id: *channel_id,
                message: message@,
                thread_id: *thread_id,
            },
            Action::MarkRead { channel_id } => ActionView::MarkRead { channel_id: *channel_id },
            Action::EnterChannel { channel_id } => ActionView::EnterChannel {
                channel_id: *channel_id,
            },
            Action::SendMedia { channel_id, files, multiple } => ActionView::SendMedia {
                channel_id: *channel_id,
                files: files.deep_view(),
                multiple: *multiple,
            },
        }
    }
}

/// Where files go once they are stored.
#[derive(Clone, Copy, Debug, PartialEq, Eq, Structural)]
pub struct MediaTarget {
    pub channel_id: i64,
    pub multiple: bool,
}

/// The action that sends stored media.
pub open spec fn sends(media: StoredMediaView) -> ActionView {
    ActionView::SendMedia {
        channel_id: media.channel_id,
        files: media.files,
        multiple: media.multiple,
    }
}

impl MediaTarget {
    /// The action that sends `files` there.
    pub fn action(self, files: Vec<MediaFile>) -> (res: Action)
        ensures
            res@ == sends(
                (StoredMediaView {
                    channel_id: self.channel_id,
                    files: files.deep_view(),
                    multiple: self.multiple,
                }),
            ),
            res == (Action::SendMedia {
                channel_id: self.channel_id,
                files,
                multiple: self.multiple,
            }),
    {
        Action::SendMedia { channel_id: self.channel_id, files, multiple: self.multiple }
    }
}

impl StoredMedia {
    /// The action that sends the files.
    pub fn into_action(self) -> (res: Action)
        ensures
            res@ == sends(self@),
            res == (Action::SendMedia {
                channel_id: self.channel_id,
                files: self.files,
                multiple: self.multiple,
            }),
    {
        Action::SendMedia {
            channel_id: self.channel_id,
            files: self.files,
            multiple: self.multiple,
        }
    }
}

// ---------------------------------------------------------------------------
// The service
// ---------------------------------------------------------------------------

/// What the service knows of its surroundings.
#[derive(Clone, Debug, PartialEq, Eq)]
pub struct ArisaService {
    /// The directory of the application's data.
    pub app_path: String,
    /// The directory for media files.
    pub temp_dir: String,
}

/// How a request to send files starts: where the files go and what is to be stored
/// first, for a file called `name`.
pub open spec fn sending(
    temp_dir: Seq<char>,
    channel_id: i64,
    mode: Option<MediaMode>,
    files: Seq<SentMediaView>,
    name: Seq<char>,
) -> Result<(MediaTarget, BatchTask), Refusal> {
    match mode {
        None => Err(
            Refusal { status: invalid_argument("invalid media mode"@), remove: Seq::empty() },
        ),
        Some(mode) => {
            let step = match batch(temp_dir, files) {
                Err(failure) => Err(failure),
                Ok(start) => start.next(name),
            };
            match step {
                Err(failure) => Err(Refusal { status: failure.error, remove: failure.remove }),
                Ok(task) => Ok(
                    (MediaTarget { channel_id, multiple: mode == MediaMode::Multiple }, task),
                ),
            }
        },
    }
}

/// The number of rows to give at most.
pub open spec fn query_limit(limit: Option<i64>) -> int {
    let asked = match limit {
        Some(limit) => limit as int,
        None => DEFAULT_QUERY_LIMIT as int,
    };
    if asked < MIN_QUERY_LIMIT {
        MIN_QUERY_LIMIT as int
    } else if asked > MAX_QUERY_LIMIT {
        MAX_QUERY_LIMIT as int
    } else {
        asked
    }
}

/// What is made of a query.
pub open spec fn checked_query(sql: Seq<char>, limit: Option<i64>) -> Result<
    RawQueryView,
    StatusView,
> {
    if text::is_blank(sql) {
        Err(invalid_argument("sql cannot be empty"@))
    } else {
        Ok(RawQueryView { sql, limit: query_limit(limit) })
    }
}

impl ArisaService {
    /// A service for the application whose data is in `app_path`, with media files in
    /// `temp_dir`.
    pub fn new(app_path: String, temp_dir: String) -> (res: ArisaService)
        ensures
            res.app_path@ == app_path@,
            res.temp_dir@ == temp_dir@,
            res.app_path == app_path,
            res.temp_dir == temp_dir,
    {
        ArisaService { app_path, temp_dir }
    }

    /// The action that sends a message.
    pub fn reply(&self, request: ReplyRequest) -> (res: Action)
        ensures
            res@ == (ActionView::Reply {
                channel_id: request.channel_id,
                message: request.message@,
                thread_id: request.thread_id,
            }),
            res == (Action::Reply {
                channel_id: request.channel_id,
                message: request.message,
                thread_id: request.thread_id,
            }),
    {
        Action::Reply {
            channel_id: request.channel_id,
            message: request.message,
            thread_id: request.thread_id,
        }
    }

    /// The action that marks a channel as read.
    pub fn mark_read(&self, request: MarkReadRequest) -> (res: Action)
        ensures
            res@ == (ActionView::MarkRead { channel_id: request.channel_id }),
            res == (Action::MarkRead { channel_id: request.channel_id }),
    {
        Action::MarkRead { channel_id: request.channel_id }
    }

    /// The action that enters a channel.
    pub fn enter_channel(&self, request: EnterChannelRequest) -> (res: Action)
        ensures
            res@ == (ActionView::EnterChannel { channel_id: request.channel_id }),
            res == (Action::EnterChannel { channel_id: request.channel_id }),
    {
        Action::EnterChannel { channel_id: request.channel_id }
    }

    /// Starts to store the files of a request. Each file gets a fresh random name; once
    /// all of them are stored, [`MediaTarget::action`] sends them. A name is drawn once
    /// nothing speaks against the request and the file; the draw panics where the system
    /// has no random numbers to give.
    pub fn send_media(&self, request: SendMediaRequest) -> (res: Result<
        (MediaTarget, StoreStep),
        Rejected,
    >)
        ensures
            exists|name: Seq<char>| #[trigger]
                is_random_uuid(name) && match res {
                    Ok((target, step)) => Ok::<_, Refusal>((target, step@)),
                    Err(rejected) => Err(rejected@),
                } == sending(
                    self.temp_dir@,
                    request.channel_id,
                    request.mode,
                    request.files.deep_view(),
                    name,
                ),
            res is Ok <==> request.mode is Some && request.files@.len() > 0
                && request.files@[0].data@.len() > 0,
            res matches Err(rejected) ==> {
                &&& rejected.status.code == Code::InvalidArgument
                &&& rejected.status.message@ == if request.mode is None {
                    "invalid media mode"@
                } else if request.files@.len() == 0 {
                    "at least one media file is required"@
                } else {
                    "media files cannot be empty"@
                }
                &&& rejected.remove@.len() == 0
            },
            res matches Ok((target, step)) ==> {
                &&& target.channel_id == request.channel_id
                &&& target.multiple <==> request.mode == Some(MediaMode::Multiple)
                &&& step matches StoreStep::Write(pending) && {
                    let first = request.files@[0];
                    &&& pending.directory@ == self.temp_dir@
                    &&& pending.stored@.len() == 0
                    &&& pending.backlog@ == request.files@.drop_first().reverse()
                    &&& pending.data == first.data
                    &&& pending.file.name == first.name
                    &&& (exists|i: int|
                        0 <= i < first.mime@.len() && !text::is_white_space(
                            #[trigger] first.mime@[i],
                        )) ==> pending.file.mime == first.mime
                    &&& (forall|i: int|
                        0 <= i < first.mime@.len() ==> text::is_white_space(
                            #[trigger] first.mime@[i],
                        )) ==> pending.file.mime@ == "application/octet-stream"@
                    &&& exists|name: Seq<char>| #[trigger]
                        is_random_uuid(name) && pending.file.path@ == text::joined(
                            self.temp_dir@,
                            name,
                        )
                }
            },
    {
        proof {
            lemma_random_uuids_exist();
        }
        let multiple: bool = match request.mode {
            None => {
                let remove: Vec<String> = Vec::new();
                assert(remove.deep_view() =~= Seq::empty());
                return Err(
                    Rejected { status: Status::invalid_argument("invalid media mode"), remove },
                );
            },
            Some(mode) => mode == MediaMode::Multiple,
        };
        match store(self.temp_dir.clone(), request.files) {
            Ok(step) => Ok((MediaTarget { channel_id: request.channel_id, multiple }, step)),
            Err(failure) => Err(
                Rejected { status: Status::from(failure.error), remove: failure.remove },
            ),
        }
    }

    /// Starts an upload that arrives message by message, of which `first` is the first
    /// message. Once it is finished, [`StoredMedia::into_action`] sends the files.
    pub fn send_media_by_chunk(&self, first: Option<Option<Payload>>) -> (res: Result<
        Receiving,
        Status,
    >)
        ensures
            result_view(res) == opened(self.temp_dir@, first.deep_view()),
            res matches Ok(upload) ==> upload@.valid(),
            res is Ok <==> (first matches Some(Some(Payload::Metadata(metadata)))
                && metadata.file_count > 0 && metadata.mode is Some),
            res matches Ok(upload) ==> {
                &&& upload.directory@ == self.temp_dir@
                &&& upload.stored@.len() == 0
                &&& upload.current is None
                &&& first matches Some(Some(Payload::Metadata(metadata))) && {
                    &&& upload.channel_id == metadata.channel_id
                    &&& upload.expected_count == metadata.file_count
                    &&& upload.multiple <==> metadata.mode == Some(MediaMode::Multiple)
                }
            },
            res matches Err(status) ==> {
                &&& status.code == Code::InvalidArgument
                &&& status.message@ == match first {
                    None => "metadata is required"@,
                    Some(Some(Payload::Metadata(metadata))) => if metadata.file_count == 0 {
                        "at least one media file is required"@
                    } else {
                        "invalid media mode"@
                    },
                    Some(_) => "the first message must be metadata"@,
                }
            },
    {
        store_chunks(self.temp_dir.clone(), first)
    }

    /// Checks a query and limits the number of its rows.
    pub fn raw_query(&self, request: RawQueryRequest) -> (res: Result<RawQuery, Status>)
        ensures
            result_view(res) == checked_query(request.sql@, request.limit),
            res is Err <==> forall|i: int|
                0 <= i < request.sql@.len() ==> text::is_white_space(#[trigger] request.sql@[i]),
            res matches Err(status) ==> {
                &&& status.code == Code::InvalidArgument
                &&& status.message@ == "sql cannot be empty"@
            },
            res matches Ok(query) ==> {
                &&& query.sql == request.sql
                &&& 1 <= query.limit <= 10_000
                &&& request.limit is None ==> query.limit == 100
                &&& request.limit matches Some(asked) ==> {
                    &&& asked < 1 ==> query.limit == 1
                    &&& 1 <= asked <= 10_000 ==> query.limit == asked
                    &&& asked > 10_000 ==> query.limit == 10_000
                }
            },
    {
        if text::blank(&request.sql) {
            return Err(Status::invalid_argument("sql cannot be empty"));
        }
        let asked: i64 = match request.limit {
            Some(limit) => limit,
            None => DEFAULT_QUERY_LIMIT,
        };
        let limit: i64 = if asked < MIN_QUERY_LIMIT {
            MIN_QUERY_LIMIT
        } else if asked > MAX_QUERY_LIMIT {
            MAX_QUERY_LIMIT
        } else {
            asked
        };
        Ok(RawQuery { sql: request.sql, limit: limit as usize })
    }
}

// ---------------------------------------------------------------------------
// Answers
// ---------------------------------------------------------------------------

/// The answer to a request that enqueues an action, where enqueuing it gave `outcome`.
pub fn enqueue(outcome: Result<(), String>) -> (res: Result<(), Status>)
    ensures
        match res {
            Ok(()) => Ok::<(), StatusView>(()),
            Err(status) => Err(status@),
        } == match outcome {
            Ok(()) => Ok::<(), StatusView>(()),
            Err(error) => Err(unavailable(error@)),
        },
        res is Ok <==> outcome is Ok,
        res matches Err(status) ==> {
            &&& status.code == Code::Unavailable
            &&& outcome == Err::<(), _>(status.message)
        },
{
    match outcome {
        Ok(()) => Ok(()),
        Err(error) => Err(Status::unavailable(error)),
    }
}

/// The answer to a request that asks the server itself, where that gave `outcome`.
pub fn answer<T>(outcome: Result<T, String>) -> (res: Result<T, Status>)
    ensures
        match outcome {
            Ok(value) => res == Ok::<T, Status>(value),
            Err(error) => res matches Err(status) && status@ == internal(error@),
        },
        res is Ok <==> outcome is Ok,
        res matches Err(status) ==> {
            &&& status.code == Code::Internal
            &&& outcome == Err::<T, _>(status.message)
        },
{
    match outcome {
        Ok(value) => Ok(value),
        Err(error) => Err(Status::internal(error)),
    }
}

/// The answer to a request that asks the database. The outer result says whether the
/// task that asked it came to its end, the inner one what it gave.
pub fn blocking<T>(outcome: Result<Result<T, String>, String>) -> (res: Result<T, Status>)
    ensures
        match outcome {
            Ok(Ok(value)) => res == Ok::<T, Status>(value),
            Ok(Err(error)) => res matches Err(status) && status@ == internal(error@),
            Err(error) => res matches Err(status) && status@ == internal(
                "database task failed: "@ + error@,
            ),
        },
        res is Ok <==> outcome is Ok && outcome->Ok_0 is Ok,
        res matches Err(status) ==> {
            &&& status.code == Code::Internal
            &&& match outcome {
                Ok(inner) => inner == Err::<T, _>(status.message),
                Err(error) => status.message@ == "database task failed: "@ + error@,
            }
        },
{
    match outcome {
        Ok(outcome) => answer(outcome),
        Err(error) => {
            let mut message = "database task failed: ".to_owned();
            message.append(&error);
            Err(Status::internal(message))
        },
    }
}

/// What a subscriber sees of an event: an event that was received, and nothing where
/// events were missed.
pub fn forward_event<E, L>(event: Result<E, L>) -> (res: Option<Result<E, Status>>)
    ensures
        res == match event {
            Ok(event) => Some(Ok::<E, Status>(event)),
            Err(_) => None,
        },
{
    match event {
        Ok(event) => Some(Ok(event)),
        Err(_) => None,
    }
}

// ---------------------------------------------------------------------------
// Laws
// ---------------------------------------------------------------------------

/// The number of rows is always from one to ten thousand, and it is the one that was
/// asked for wherever that lies in between.
pub proof fn law_query_limits_are_bounded(limit: Option<i64>)
    ensures
        1 <= query_limit(limit) <= 10_000,
        limit matches Some(asked) ==> (1 <= asked <= 10_000 ==> query_limit(limit) == asked),
        limit is None ==> query_limit(limit) == 100,
{
}

/// A statement is passed on letter for letter, and refused only where there is nothing to
/// it but white space. The number of rows is the one that was asked for, or the nearest
/// one from one to ten thousand; a hundred where none was asked for.
pub proof fn law_queries_are_passed_on(sql: Seq<char>, limit: Option<i64>)
    ensures
        match checked_query(sql, limit) {
            Ok(query) => {
                &&& exists|i: int| 0 <= i < sql.len() && !text::is_white_space(#[trigger] sql[i])
                &&& query.sql.len() == sql.len()
                &&& forall|i: int| 0 <= i < sql.len() ==> #[trigger] query.sql[i] == sql[i]
                &&& 1 <= query.limit <= 10_000
                &&& limit is None ==> query.limit == 100
                &&& limit matches Some(asked) ==> {
                    &&& asked < 1 ==> query.limit == 1
                    &&& 1 <= asked <= 10_000 ==> query.limit == asked
                    &&& asked > 10_000 ==> query.limit == 10_000
                }
            },
            Err(status) => {
                &&& forall|i: int| 0 <= i < sql.len() ==> text::is_white_space(#[trigger] sql[i])
                &&& status.code == Code::InvalidArgument
                &&& status.message == "sql cannot be empty"@
            },
        },
{
}

/// A greater number of rows is never given to who asks for fewer.
pub proof fn law_query_limits_grow_with_what_is_asked(less: i64, more: i64)
    requires
        less <= more,
    ensures
        query_limit(Some(less)) <= query_limit(Some(more)),
        query_limit(Some(less)) < query_limit(Some(more)) <==> less < more && more > 1 && less
            < 10_000,
{
}

/// Stored media are sent to their channel, all files in their order.
pub proof fn law_stored_media_are_sent_as_they_are(media: StoredMediaView)
    ensures
        sends(media) matches ActionView::SendMedia { channel_id, files, multiple } && {
            &&& channel_id == media.channel_id
            &&& multiple == media.multiple
            &&& files.len() == media.files.len()
            &&& forall|i: int| 0 <= i < files.len() ==> #[trigger] files[i] == media.files[i]
        },
{
}

/// A request to send files is refused where its mode is unknown, where it has no file or
/// where its first file is empty, in that order; nothing has been written by then. Any
/// other starts with its first file, and the others wait in their order.
pub proof fn law_sending_starts_with_the_first_file(
    temp_dir: Seq<char>,
    channel_id: i64,
    mode: Option<MediaMode>,
    files: Seq<SentMediaView>,
    name: Seq<char>,
)
    ensures
        match sending(temp_dir, channel_id, mode, files, name) {
            Ok((target, task)) => {
                &&& mode is Some && files.len() > 0 && files[0].data.len() > 0
                &&& target.channel_id == channel_id
                &&& target.multiple <==> mode == Some(MediaMode::Multiple)
                &&& task matches BatchTask::Write(write) && {
                    &&& write.directory == temp_dir
                    &&& write.stored.len() == 0
                    &&& write.data == files[0].data
                    &&& write.file.name == files[0].name
                    &&& write.file.path == text::joined(temp_dir, name)
                    &&& write.remaining.len() == files.len() - 1
                    &&& forall|i: int, j: int|
                        #![trigger write.remaining[i], files[j]]
                        0 <= i < write.remaining.len() && j == i + 1 ==> write.remaining[i]
                            == files[j]
                }
            },
            Err(refusal) => {
                &&& refusal.status.code == Code::InvalidArgument
                &&& refusal.remove.len() == 0
                &&& mode is None ==> refusal.status.message == "invalid media mode"@
                &&& mode is Some && files.len() == 0 ==> refusal.status.message
                    == "at least one media file is required"@
                &&& mode is Some && files.len() > 0 ==> files[0].data.len() == 0
                    && refusal.status.message == "media files cannot be empty"@
            },
        },
{
}

} // verus!
