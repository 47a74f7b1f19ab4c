//! The transfer handshake, seen from both ends.
//!
//! The receiver learns the size a sender declares, counts what arrives into
//! a staging file, and commits the file under its public name only when the
//! count equals the declaration. The sender announces a file, then streams
//! it with that declaration attached. Reading sockets and writing files is
//! left to the caller; every decision in between is made here.

use crate::string_set::StringSet;
use crate::text::{parse_u64, parse_u64_spec};
use vstd::prelude::*;

verus! {

/// Bytes per chunk when a sender streams a file.
pub const STREAM_CHUNK_BYTES: usize = 262144;

/// Seconds a sender waits for a connection to a peer.
pub const CONNECT_TIMEOUT_SECS: u64 = 10;

/// Seconds a sender gives a whole request to a peer.
pub const REQUEST_TIMEOUT_SECS: u64 = 30;

/// Milliseconds an upload waits, at most, for an earlier upload of the same
/// name to end.
pub const UPLOAD_WAIT_LIMIT_MS: u64 = 30000;

/// Milliseconds between two looks at whether the earlier upload has ended.
pub const UPLOAD_WAIT_STEP_MS: u64 = 25;

/// The response a receiver gives to an upload.
#[derive(Clone, Copy, Debug, PartialEq, Eq, Structural)]
pub enum UploadStatus {
    /// The file arrived whole and stands under its public name.
    Success,
    /// Fewer or more bytes arrived than were declared, or the file's name
    /// is no plain name.
    BadRequest,
    /// The request declared no size.
    LengthRequired,
    /// The stream, the staging file or the final rename failed.
    InternalServerError,
}

/// The HTTP status code of a response.
pub open spec fn status_code(status: UploadStatus) -> u16 {
    match status {
        UploadStatus::Success => 200,
        UploadStatus::BadRequest => 400,
        UploadStatus::LengthRequired => 411,
        UploadStatus::InternalServerError => 500,
    }
}

impl UploadStatus {
    /// The HTTP status code of this response.
    pub fn code(&self) -> (code: u16)
        ensures
            code == status_code(*self),
    {
        match self {
            UploadStatus::Success => 200,
            UploadStatus::BadRequest => 400,
            UploadStatus::LengthRequired => 411,
            UploadStatus::InternalServerError => 500,
        }
    }
}

/// The name of the header that carries the declared size.
pub open spec fn size_header_name_spec() -> Seq<char> {
    "X-File-Size"@
}

/// The directory, below the host's temporary files, that holds incoming
/// files.
pub open spec fn incoming_directory_spec() -> Seq<char> {
    "richiedrop_incoming"@
}

/// The name under which a file is staged while it arrives.
pub open spec fn staging_name_spec(filename: Seq<char>) -> Seq<char> {
    filename + ".part"@
}

/// A plain name is one path component that names a file: not empty, not
/// `.` or `..`, and free of `/` and `\`. Joined to a directory it names a
/// direct child of that directory.
pub open spec fn plain_name(name: Seq<char>) -> bool {
    &&& name.len() > 0
    &&& name != seq!['.']
    &&& name != seq!['.', '.']
    &&& forall|i: int| 0 <= i < name.len() ==> name[i] != '/' && name[i] != '\\'
}

/// The number a header value writes, if the header is there and writes one.
pub open spec fn header_number(value: Option<Seq<char>>) -> Option<u64> {
    match value {
        Some(text) => parse_u64_spec(text),
        None => None,
    }
}

/// The size an upload declares: the number in the size header, or else the
/// number in the content length, or else none.
pub open spec fn declared_size_spec(
    size_header: Option<Seq<char>>,
    content_length: Option<Seq<char>>,
) -> Option<u64> {
    match header_number(size_header) {
        Some(n) => Some(n),
        None => header_number(content_length),
    }
}

/// The view of an optional header value.
pub open spec fn header_view(value: Option<&str>) -> Option<Seq<char>> {
    match value {
        Some(text) => Some(text@),
        None => None,
    }
}

/// The running count after `len` more bytes. A count is `None` once it has
/// passed `u64::MAX`: no declared size can equal it any more.
pub open spec fn count_after(count: Option<u64>, len: nat) -> Option<u64> {
    match count {
        Some(c) => if c + len <= u64::MAX {
            Some((c + len) as u64)
        } else {
            None
        },
        None => None,
    }
}

/// What to do with a staged file once its stream has ended.
#[derive(Clone, Copy, Debug, PartialEq, Eq, Structural)]
pub enum UploadVerdict {
    /// The count equals the declaration: rename the staging file to its
    /// public name.
    Commit,
    /// The count differs: remove the staging file and answer
    /// `UploadStatus::BadRequest`.
    Truncated,
}

/// The verdict on a finished stream: commit exactly when the count equals
/// the declared size.
pub open spec fn verdict_spec(declared: u64, count: Option<u64>) -> UploadVerdict {
    if count == Some(declared) {
        UploadVerdict::Commit
    } else {
        UploadVerdict::Truncated
    }
}

/// The name of the header that carries the declared size.
pub fn size_header_name() -> (name: String)
    ensures
        name@ == size_header_name_spec(),
{
    String::from_str("X-File-Size")
}

/// The directory, below the host's temporary files, that holds incoming
/// files.
pub fn incoming_directory() -> (name: String)
    ensures
        name@ == incoming_directory_spec(),
{
    String::from_str("richiedrop_incoming")
}

/// The name under which `filename` is staged while it arrives.
pub fn staging_name(filename: &str) -> (name: String)
    ensures
        name@ == staging_name_spec(filename@),
{
    let mut name = String::from_str(filename);
    name.append(".part");
    name
}

/// Whether `name` is a plain name.
pub fn is_plain_name(name: &str) -> (ok: bool)
    ensures
        ok == plain_name(name@),
{
    let n: usize = name.unicode_len();
    if n == 0 {
        return false;
    }
    let mut i: usize = 0;
    while i < n
        invariant
            i <= n,
            n == name@.len(),
            forall|k: int| 0 <= k < i ==> name@[k] != '/' && name@[k] != '\\',
        decreases n - i,
    {
        let c = name.get_char(i);
        if c == '/' || c == '\\' {
            return false;
        }
        i = i + 1;
    }
    let first = name.get_char(0);
    if n == 1 {
        if first == '.' {
            assert(name@ =~= seq!['.']);
            return false;
        }
        assert(name@[0] != seq!['.'][0]);
        true
    } else if n == 2 {
        let second = name.get_char(1);
        if first == '.' && second == '.' {
            assert(name@ =~= seq!['.', '.']);
            return false;
        }
        assert(name@[0] != seq!['.', '.'][0] || name@[1] != seq!['.', '.'][1]);
        true
    } else {
        true
    }
}

/// The staging name of a plain name is a plain name: both the staging file
/// and the committed file are direct children of the incoming directory.
pub proof fn lemma_staging_name_is_plain(filename: Seq<char>)
    requires
        plain_name(filename),
    ensures
        plain_name(staging_name_spec(filename)),
{
    reveal_strlit(".part");
    let staged = staging_name_spec(filename);
    assert(staged.len() == filename.len() + 5);
    assert forall|i: int| 0 <= i < staged.len() implies staged[i] != '/' && staged[i] != '\\' by {
        if i < filename.len() {
            assert(staged[i] == filename[i]);
        } else {
            assert(staged[i] == ".part"@[i - filename.len()]);
        }
    }
}

/// The size an upload declares, read from the size header or, failing
/// that, from the content length. A header that is absent or writes no
/// number counts as not given.
pub fn declared_size(size_header: Option<&str>, content_length: Option<&str>) -> (size: Option<u64>)
    ensures
        size == declared_size_spec(header_view(size_header), header_view(content_length)),
{
    let preferred: Option<u64> = match size_header {
        Some(text) => parse_u64(text),
        None => None,
    };
    match preferred {
        Some(n) => Some(n),
        None => match content_length {
            Some(text) => parse_u64(text),
            None => None,
        },
    }
}

/// One upload in progress: the file's name, the size declared for it, and
/// the bytes counted so far. The name is always a plain name.
pub struct UploadSession {
    filename: String,
    declared: u64,
    received: u64,
    overrun: bool,
}

impl UploadSession {
    #[verifier::type_invariant]
    spec fn named_plainly(self) -> bool {
        plain_name(self.filename@)
    }

    /// The name the file will have once committed.
    pub closed spec fn filename_view(&self) -> Seq<char> {
        self.filename@
    }

    /// The size declared for the file.
    pub closed spec fn declared_view(&self) -> u64 {
        self.declared
    }

    /// The bytes counted so far, or `None` once past `u64::MAX`.
    pub closed spec fn count(&self) -> Option<u64> {
        if self.overrun {
            None
        } else {
            Some(self.received)
        }
    }

    /// Opens the session for an upload of `filename`.
    ///
    /// An upload that declares no size is refused with
    /// `UploadStatus::LengthRequired`, and one whose name is no plain name
    /// with `UploadStatus::BadRequest`. Either is refused before anything
    /// is staged: no session exists, so there is nothing to write to.
    /// Otherwise the session starts with the declared size and a count of
    /// zero.
    pub fn begin(filename: String, size_header: Option<&str>, content_length: Option<&str>) -> (opened:
        Result<UploadSession, UploadStatus>)
        ensures
            match declared_size_spec(header_view(size_header), header_view(content_length)) {
                None => opened matches Err(status) && status == UploadStatus::LengthRequired,
                Some(n) => if plain_name(filename@) {
                    &&& opened matches Ok(session)
                    &&& session.filename_view() == filename@
                    &&& session.declared_view() == n
                    &&& session.count() == Some(0u64)
                } else {
                    opened matches Err(status) && status == UploadStatus::BadRequest
                },
            },
    {
        match declared_size(size_header, content_length) {
            None => Err(UploadStatus::LengthRequired),
            Some(n) => {
                if is_plain_name(filename.as_str()) {
                    Ok(UploadSession { filename, declared: n, received: 0, overrun: false })
                } else {
                    Err(UploadStatus::BadRequest)
                }
            },
        }
    }

    /// The name the file will have once committed: a plain name.
    pub fn filename(&self) -> (name: String)
        ensures
            name@ == self.filename_view(),
            plain_name(name@),
    {
        proof {
            use_type_invariant(self);
        }
        self.filename.clone()
    }

    /// The name of the staging file: a plain name.
    pub fn staging_file(&self) -> (name: String)
        ensures
            name@ == staging_name_spec(self.filename_view()),
            plain_name(name@),
    {
        proof {
            use_type_invariant(self);
            lemma_staging_name_is_plain(self.filename@);
        }
        staging_name(self.filename.as_str())
    }

    /// The size declared for the file.
    pub fn declared(&self) -> (size: u64)
        ensures
            size == self.declared_view(),
    {
        self.declared
    }

    /// The bytes counted so far, or `None` once past `u64::MAX`.
    pub fn received(&self) -> (count: Option<u64>)
        ensures
            count == self.count(),
    {
        if self.overrun {
            None
        } else {
            Some(self.received)
        }
    }

    /// Counts a chunk of `len` bytes that was written to the staging file.
    pub fn record_chunk(&mut self, len: usize)
        ensures
            final(self).count() == count_after(old(self).count(), len as nat),
            final(self).filename_view() == old(self).filename_view(),
            final(self).declared_view() == old(self).declared_view(),
    {
        proof {
            use_type_invariant(&*self);
        }
        if !self.overrun {
            let room: u64 = u64::MAX - self.received;
            if len as u64 <= room {
                self.received = self.received + len as u64;
            } else {
                self.overrun = true;
            }
        }
    }

    /// The verdict once the stream has ended and the staging file is
    /// flushed: commit exactly when the count equals the declared size.
    pub fn finish(&self) -> (verdict: UploadVerdict)
        ensures
            verdict == verdict_spec(self.declared_view(), self.count()),
    {
        if !self.overrun && self.received == self.declared {
            UploadVerdict::Commit
        } else {
            UploadVerdict::Truncated
        }
    }
}

/// The uploads in progress, by file name. Two uploads of one name would
/// write the same staging file, so only one of a name is let in at a time.
pub struct ActiveUploads {
    busy: StringSet,
}

impl View for ActiveUploads {
    type V = Set<Seq<char>>;

    closed spec fn view(&self) -> Set<Seq<char>> {
        self.busy@
    }
}

impl ActiveUploads {
    /// No upload in progress.
    pub fn new() -> (active: Self)
        ensures
            active@ == Set::<Seq<char>>::empty(),
    {
        ActiveUploads { busy: StringSet::new() }
    }

    /// Whether an upload of `filename` is in progress.
    pub fn is_busy(&self, filename: &str) -> (busy: bool)
        ensures
            busy == self@.contains(filename@),
    {
        self.busy.contains(filename)
    }

    /// Claims `filename` for an upload. The claim succeeds exactly when no
    /// upload of that name is in progress; a failed claim changes nothing.
    pub fn try_enter(&mut self, filename: &str) -> (entered: bool)
        ensures
            entered == !old(self)@.contains(filename@),
            final(self)@ == old(self)@.insert(filename@),
    {
        self.busy.insert(String::from_str(filename))
    }

    /// Gives `filename` up once its upload has ended, however it ended.
    pub fn leave(&mut self, filename: &str)
        ensures
            final(self)@ == old(self)@.remove(filename@),
    {
        self.busy.remove(filename)
    }
}

/// How an upload went, as far as the receiver's response depends on it.
#[derive(Clone, Copy, Debug, PartialEq, Eq, Structural)]
pub enum UploadCourse {
    /// The stream, the staging file or its directory failed before the
    /// stream ended.
    Broken,
    /// The stream ended and the verdict was to discard the staging file.
    Discarded,
    /// The verdict was to commit, and the rename failed.
    RenameFailed,
    /// The verdict was to commit, and the rename succeeded.
    Committed,
}

/// The response that each course of an upload gets.
pub open spec fn response_spec(course: UploadCourse) -> UploadStatus {
    match course {
        UploadCourse::Broken => UploadStatus::InternalServerError,
        UploadCourse::Discarded => UploadStatus::BadRequest,
        UploadCourse::RenameFailed => UploadStatus::InternalServerError,
        UploadCourse::Committed => UploadStatus::Success,
    }
}

/// The response to an upload that took the given course. Only a committed
/// file is answered with success, and only then is its arrival announced.
pub fn response_for(course: UploadCourse) -> (status: UploadStatus)
    ensures
        status == response_spec(course),
        status == UploadStatus::Success <==> course == UploadCourse::Committed,
{
    match course {
        UploadCourse::Broken => UploadStatus::InternalServerError,
        UploadCourse::Discarded => UploadStatus::BadRequest,
        UploadCourse::RenameFailed => UploadStatus::InternalServerError,
        UploadCourse::Committed => UploadStatus::Success,
    }
}

/// The course of an upload whose stream ended intact, given the verdict and
/// whether the rename that a commit asks for succeeded.
pub open spec fn course_spec(verdict: UploadVerdict, renamed: bool) -> UploadCourse {
    match verdict {
        UploadVerdict::Truncated => UploadCourse::Discarded,
        UploadVerdict::Commit => if renamed {
            UploadCourse::Committed
        } else {
            UploadCourse::RenameFailed
        },
    }
}

/// The course of an upload whose stream ended intact. A truncated upload
/// is discarded whatever `renamed` says, since no rename is attempted.
pub fn course_of(verdict: UploadVerdict, renamed: bool) -> (course: UploadCourse)
    ensures
        course == course_spec(verdict, renamed),
{
    match verdict {
        UploadVerdict::Truncated => UploadCourse::Discarded,
        UploadVerdict::Commit => if renamed {
            UploadCourse::Committed
        } else {
            UploadCourse::RenameFailed
        },
    }
}

/// The response to a whole upload: its file name and headers, the chunks
/// that arrived, whether the stream and the staging file held up to the
/// end, and whether the final rename succeeded.
pub open spec fn upload_response(
    filename: Seq<char>,
    size_header: Option<Seq<char>>,
    content_length: Option<Seq<char>>,
    chunks: Seq<nat>,
    intact: bool,
    renamed: bool,
) -> UploadStatus {
    match declared_size_spec(size_header, content_length) {
        None => UploadStatus::LengthRequired,
        Some(declared) => if !plain_name(filename) {
            UploadStatus::BadRequest
        } else if !intact {
            UploadStatus::InternalServerError
        } else {
            response_spec(course_spec(verdict_spec(declared, count_all(Some(0u64), chunks)), renamed))
        },
    }
}

/// The steps by which a received file is moved to the place the user
/// chose: a rename, which works within one file system, and failing that a
/// copy followed by the removal of the received file.
#[derive(Clone, Copy, Debug, PartialEq, Eq, Structural)]
pub enum SaveStep {
    /// Rename the received file to its destination.
    Rename,
    /// Copy the received file to its destination.
    Copy,
    /// Remove the received file, now that its copy exists.
    RemoveSource,
}

/// What follows a step of saving, given how the step ended: the next step,
/// `None` when the file is saved, or the error that ends the attempt.
pub open spec fn save_next_spec(step: SaveStep, outcome: Result<(), Seq<char>>) -> Result<
    Option<SaveStep>,
    Seq<char>,
> {
    match step {
        SaveStep::Rename => match outcome {
            Ok(_) => Ok(None),
            Err(_) => Ok(Some(SaveStep::Copy)),
        },
        SaveStep::Copy => match outcome {
            Ok(_) => Ok(Some(SaveStep::RemoveSource)),
            Err(cause) => Err("Copy failed: "@ + cause),
        },
        SaveStep::RemoveSource => Ok(None),
    }
}

/// The view of a step's outcome.
pub open spec fn outcome_view(outcome: Result<(), String>) -> Result<(), Seq<char>> {
    match outcome {
        Ok(_) => Ok(()),
        Err(cause) => Err(cause@),
    }
}

/// The view of what follows a step.
pub open spec fn save_next_view(next: Result<Option<SaveStep>, String>) -> Result<
    Option<SaveStep>,
    Seq<char>,
> {
    match next {
        Ok(step) => Ok(step),
        Err(text) => Err(text@),
    }
}

/// Decides what follows a step of saving a received file. A failed rename
/// is answered by copying; a failed copy ends the attempt with its cause; a
/// failed removal of the received file is let pass, since the copy exists.
pub fn save_next(step: SaveStep, outcome: &Result<(), String>) -> (next: Result<Option<SaveStep>, String>)
    ensures
        save_next_view(next) == save_next_spec(step, outcome_view(*outcome)),
{
    match step {
        SaveStep::Rename => match outcome {
            Ok(_) => Ok(None),
            Err(_) => Ok(Some(SaveStep::Copy)),
        },
        SaveStep::Copy => match outcome {
            Ok(_) => Ok(Some(SaveStep::RemoveSource)),
            Err(cause) => {
                let mut text = String::from_str("Copy failed: ");
                text.append(cause.as_str());
                Err(text)
            },
        },
        SaveStep::RemoveSource => Ok(None),
    }
}

/// The sum of the lengths of a run of chunks.
pub open spec fn total_len(chunks: Seq<nat>) -> nat
    decreases chunks.len(),
{
    if chunks.len() == 0 {
        0
    } else {
        total_len(chunks.drop_last()) + chunks.last()
    }
}

/// The running count after a run of chunks, first to last.
pub open spec fn count_all(count: Option<u64>, chunks: Seq<nat>) -> Option<u64>
    decreases chunks.len(),
{
    if chunks.len() == 0 {
        count
    } else {
        count_after(count_all(count, chunks.drop_last()), chunks.last())
    }
}

/// Counting from zero gives the total length of the chunks while that
/// fits, and `None` from then on.
pub proof fn lemma_count_is_total(chunks: Seq<nat>)
    ensures
        count_all(Some(0u64), chunks) == if total_len(chunks) <= u64::MAX {
            Some(total_len(chunks) as u64)
        } else {
            None
        },
    decreases chunks.len(),
{
    if chunks.len() > 0 {
        lemma_count_is_total(chunks.drop_last());
    }
}

/// A file is committed exactly when as many bytes arrived as were
/// declared, however they were cut into chunks. A stream that ends even one
/// byte short, or runs over, is discarded and never renamed.
pub proof fn lemma_commit_iff_complete(declared: u64, chunks: Seq<nat>)
    ensures
        verdict_spec(declared, count_all(Some(0u64), chunks)) == UploadVerdict::Commit <==> total_len(
            chunks,
        ) == declared,
        total_len(chunks) == declared - 1 ==> verdict_spec(declared, count_all(Some(0u64), chunks))
            == UploadVerdict::Truncated,
{
    lemma_count_is_total(chunks);
}

/// The response to a whole upload, case by case. Without a declared size
/// it is 411, whatever else happens. With one, an upload is answered with
/// success exactly when its name is plain, the stream held, as many bytes
/// arrived as were declared, and the rename succeeded. It is answered with
/// 400 when the name is not plain, or the stream held but brought another
/// number of bytes.
pub proof fn lemma_upload_response(
    filename: Seq<char>,
    size_header: Option<Seq<char>>,
    content_length: Option<Seq<char>>,
    chunks: Seq<nat>,
    intact: bool,
    renamed: bool,
)
    ensures
        declared_size_spec(size_header, content_length) is None ==> upload_response(
            filename,
            size_header,
            content_length,
            chunks,
            intact,
            renamed,
        ) == UploadStatus::LengthRequired,
        declared_size_spec(size_header, content_length) matches Some(declared) ==> {
            let status = upload_response(filename, size_header, content_length, chunks, intact, renamed);
            let plain = plain_name(filename);
            &&& status == UploadStatus::Success <==> plain && intact && total_len(chunks) == declared
                && renamed
            &&& status == UploadStatus::BadRequest <==> !plain || (intact && total_len(chunks)
                != declared)
            &&& status == UploadStatus::InternalServerError <==> plain && (!intact || (total_len(chunks)
                == declared && !renamed))
            &&& status != UploadStatus::LengthRequired
        },
{
    lemma_count_is_total(chunks);
}

} // verus!
