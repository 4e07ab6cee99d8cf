//! Media files on their way from a request to the application.

use vstd::prelude::*;
use vstd::string::*;

use crate::text;

pub mod chunk_laws;
pub mod chunks;
pub mod retention;
pub mod whole;

pub use chunks::store_chunks;
pub use whole::store;

verus! {

/// The MIME type of a file that came without one.
pub const DEFAULT_MIME: &'static str = "application/octet-stream";

/// How the files of one request are sent.
#[derive(Clone, Copy, Debug, PartialEq, Eq, Structural)]
pub enum MediaMode {
    /// Each file for itself, or any other way than [`MediaMode::Multiple`].
    Single,
    /// All files as one message.
    Multiple,
}

/// A file that has been stored, ready to be sent.
#[derive(Debug, PartialEq, Eq)]
pub struct MediaFile {
    pub path: String,
    pub mime: String,
    pub name: Option<String>,
}

/// What a [`MediaFile`] holds.
pub struct MediaFileView {
    pub path: Seq<char>,
    pub mime: Seq<char>,
    pub name: Option<Seq<char>>,
}

impl View for MediaFile {
    type V = MediaFileView;

    open spec fn view(&self) -> MediaFileView {
        MediaFileView { path: self.path@, mime: self.mime@, name: self.name.deep_view() }
    }
}

impl DeepView for MediaFile {
    type V = MediaFileView;

    open spec fn deep_view(&self) -> MediaFileView {
        self@
    }
}

/// The files of one upload, all of them stored.
#[derive(Debug, PartialEq, Eq)]
pub struct StoredMedia {
    pub channel_id: i64,
    pub files: Vec<MediaFile>,
    pub multiple: bool,
}

/// What a [`StoredMedia`] holds.
pub struct StoredMediaView {
    pub channel_id: i64,
    pub files: Seq<MediaFileView>,
    pub multiple: bool,
}

impl View for StoredMedia {
    type V = StoredMediaView;

    open spec fn view(&self) -> StoredMediaView {
        StoredMediaView {
            channel_id: self.channel_id,
            files: self.files.deep_view(),
            multiple: self.multiple,
        }
    }
}

/// The MIME type as it was given; the default where it was left blank.
pub open spec fn effective_mime(given: Seq<char>) -> Seq<char> {
    if text::is_blank(given) {
        DEFAULT_MIME@
    } else {
        given
    }
}

/// The paths of `files`.
pub open spec fn paths(files: Seq<MediaFileView>) -> Seq<Seq<char>> {
    files.map_values(|file: MediaFileView| file.path)
}

/// The MIME type as it was given; the default where it was left blank.
pub fn mime_or_default(given: String) -> (res: String)
    ensures
        res@ == effective_mime(given@),
        (exists|i: int| 0 <= i < given@.len() && !text::is_white_space(#[trigger] given@[i]))
            ==> res == given,
        (forall|i: int| 0 <= i < given@.len() ==> text::is_white_space(#[trigger] given@[i]))
            ==> res@ == "application/octet-stream"@,
{
    if text::blank(&given) {
        DEFAULT_MIME.to_owned()
    } else {
        given
    }
}

/// The message where a file could not be stored.
pub open spec fn storage_failure(error: Seq<char>) -> Seq<char> {
    "failed to store media file: "@ + error
}

/// The message where a file could not be stored.
pub(crate) fn storage_error(error: &str) -> (res: String)
    ensures
        res@ == storage_failure(error@),
        res@ == "failed to store media file: "@ + error@,
{
    let mut message = "failed to store media file: ".to_owned();
    message.append(error);
    message
}

/// The paths of `files`.
pub(crate) fn paths_of(files: &Vec<MediaFile>) -> (res: Vec<String>)
    ensures
        res.deep_view() == paths(files.deep_view()),
        res@.len() == files@.len(),
        forall|i: int| 0 <= i < files@.len() ==> (#[trigger] res@[i])@ == files@[i].path@,
{
    let mut res: Vec<String> = Vec::new();
    let mut i: usize = 0;
    while i < files.len()
        invariant
            i <= files@.len(),
            res@.len() == i,
            forall|j: int| 0 <= j < i ==> (#[trigger] res@[j])@ == files@[j].path@,
        decreases files.len() - i,
    {
        res.push(files[i].path.clone());
        i = i + 1;
    }
    assert(res.deep_view() =~= paths(files.deep_view()));
    res
}

// ---------------------------------------------------------------------------
// Laws
// ---------------------------------------------------------------------------

/// A MIME type is kept letter for letter wherever there is more to it than white space;
/// otherwise the file counts as plain bytes.
pub proof fn law_mime_types_are_kept(given: Seq<char>)
    ensures
        (exists|i: int| 0 <= i < given.len() && !text::is_white_space(#[trigger] given[i]))
            ==> effective_mime(given) == given,
        (forall|i: int| 0 <= i < given.len() ==> text::is_white_space(#[trigger] given[i]))
            ==> effective_mime(given) == "application/octet-stream"@,
{
}

/// There is a path for each file, in the order of the files.
pub proof fn law_paths_are_those_of_the_files(files: Seq<MediaFileView>)
    ensures
        paths(files).len() == files.len(),
        forall|i: int| 0 <= i < files.len() ==> #[trigger] paths(files)[i] == files[i].path,
{
}

} // verus!
