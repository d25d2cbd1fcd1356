//! The steps of an upload, and what holds of each of them.
use vstd::prelude::*;
use crate::error::{AppCommandError, AppErrorView};
use crate::text::join;
use super::chain::ChainWalk;
use super::path::{components, dir_of, file_name, posix_reading, relative_verdict, EntryPath, EntryView, PathReading};
use super::path_laws::all_normal;
use super::upload_path::clean_segment;

verus! {

/// What a client is told about a stored file.
#[derive(Debug)]
pub struct UploadWorkspaceFileResult {
    /// The path below the workspace root.
    pub path: String,
    pub name: String,
    pub size: u64,
}

/// The text fields of an upload.
#[derive(Debug, Clone, Copy, PartialEq, Eq, Structural)]
pub enum TextField {
    /// The workspace folder.
    RootPath,
    /// The directory below it to upload into.
    TargetPath,
    /// The path and name below that directory, which takes the place of the file's name.
    RelativePath,
}

/// What has arrived of an upload so far.
pub struct UploadForm {
    pub root_path: Option<String>,
    pub target_path: Option<String>,
    pub relative_path: Option<String>,
    pub result: Option<UploadWorkspaceFileResult>,
    /// Most bytes that the file may have.
    pub max_bytes: u64,
}

/// The head of a field: its name, and the file name that comes with a file.
pub struct FieldHead {
    pub name: Option<String>,
    pub file_name: Option<String>,
}

/// A file whose destination is not settled yet.
pub struct FileRequest {
    pub form: UploadForm,
    /// The workspace folder.
    pub root: String,
    /// The name that the browser gives the file.
    pub file_name: String,
}

/// A file and its destination.
pub struct Placement {
    pub form: UploadForm,
    /// The workspace folder.
    pub root: String,
    /// The workspace folder with all symlinks resolved.
    pub canonical_root: PathReading,
    /// The path of the file below the workspace folder.
    pub final_rel: String,
    /// Where the file goes.
    pub target: EntryPath,
    /// The directory of the file.
    pub parent: EntryPath,
}

/// A file on its way to its destination.
pub struct Staged {
    pub place: Placement,
    /// The staging file, in the directory of the destination.
    pub staging: EntryPath,
    /// How many bytes have been written to it.
    pub written: u64,
}

/// What stands at the destination.
pub enum TargetState {
    Directory,
    Present,
    Absent,
}

/// What came of linking the staging file to the destination.
pub enum LinkOutcome {
    Linked,
    /// Something stands at the destination already.
    AlreadyExists,
    /// Linking failed for another reason.
    Failed(String),
}

/// A file that is not where it was put.
pub struct MissingFile {
    /// The destination, as the host writes it.
    pub shown: String,
    pub reason: String,
}

/// How a file was put in place.
#[derive(Debug, Clone, Copy, PartialEq, Eq, Structural)]
pub enum CommitMethod {
    HardLink,
    Rename,
}

/// How an upload goes on.
pub enum UploadStep {
    /// Ask for the next field and hand it to `field_arrived`.
    NextField(UploadForm),
    /// Read the text of the field and hand it to `text_read`.
    ReadText(UploadForm, TextField),
    /// Read over the field and go on with `field_drained`.
    Drain(UploadForm),
    /// See whether the root is a directory and hand the answer to `root_checked`, with the
    /// host's reading of its path.
    CheckRoot(FileRequest),
    /// Resolve the root, which the host reads like this, and hand the outcome to
    /// `root_canonicalized`.
    CanonicalizeRoot(FileRequest, PathReading),
    /// Ask about the walk's current place and hand the answer to `link_probed`.
    ProbeLink(Placement, ChainWalk),
    /// Create the parent directory and hand the outcome to `dirs_created`.
    CreateDirs(Placement),
    /// Resolve the parent directory and hand the outcome to `parent_canonicalized`.
    CanonicalizeParent(Placement),
    /// See what stands at the destination and hand the answer to `target_inspected`.
    InspectTarget(Placement),
    /// Create the staging file, which must not exist, and hand the outcome to
    /// `staging_opened`.
    OpenStaging(Staged),
    /// Read a chunk of the file and hand it to `chunk_read`.
    ReadChunk(Staged),
    /// Write these bytes, which bring the file to this length, and hand the outcome to
    /// `chunk_written`.
    WriteChunk(Staged, u64, Vec<u8>),
    /// Flush the staging file and hand the outcome to `staging_flushed`.
    Flush(Staged),
    /// Link the staging file to the destination and hand the outcome to `staging_linked`.
    HardLink(Staged),
    /// Rename the staging file to the destination, since linking failed for this reason, and
    /// hand the outcome to `staging_renamed`.
    Rename(Staged, String),
    /// Remove the staging file, which has been linked, and go on with `staging_removed`.
    RemoveStaging(Staged),
    /// Resolve the root and the destination and hand both outcomes to `target_verified`.
    VerifyTarget(Staged, CommitMethod),
    /// See whether the destination is there and hand the answer to `final_checked`.
    CheckFinal(Staged, CommitMethod),
    /// Remove the staging file and hand the error to `file_removed`.
    DiscardStaging(Staged, AppCommandError),
    /// Remove the destination and hand the error to `file_removed`.
    RemoveFinal(Staged, AppCommandError),
    /// The upload is done.
    Done(UploadWorkspaceFileResult),
    /// The upload is refused, or has failed.
    Fail(AppCommandError),
}

/// Whether the step is a failure that says `e`.
pub open spec fn fails(step: UploadStep, e: AppErrorView) -> bool {
    step matches UploadStep::Fail(f) && f@ == e
}

/// Whether the step removes the staging file and then fails with `e`.
pub open spec fn discards(step: UploadStep, staged: Staged, e: AppErrorView) -> bool {
    step matches UploadStep::DiscardStaging(s, f) && s == staged && f@ == e
}

/// Whether the step removes the destination and then fails with `e`.
pub open spec fn retracts(step: UploadStep, staged: Staged, e: AppErrorView) -> bool {
    step matches UploadStep::RemoveFinal(s, f) && s == staged && f@ == e
}

/// A path below a root: it is relative, names at least one entry and nothing but entries.
pub open spec fn lies_below(rel: Seq<char>) -> bool {
    &&& relative_verdict(posix_reading(rel)) is Ok
    &&& components(rel).len() > 0
    &&& all_normal(components(rel))
}

/// What holds of a stored file: it lies below the workspace folder, its name is the last one
/// of its path, and it has no more bytes than allowed.
pub open spec fn result_ok(result: UploadWorkspaceFileResult, max_bytes: u64) -> bool {
    &&& lies_below(result.path@)
    &&& file_name(components(result.path@)) == Some(result.name@)
    &&& result.size <= max_bytes
}

/// What holds of a form.
pub open spec fn form_ok(form: UploadForm) -> bool {
    form.result matches Some(result) ==> result_ok(result, form.max_bytes)
}

/// What holds of a file whose destination is not settled yet: it is the first one, and the
/// form names its workspace folder.
pub open spec fn request_ok(req: FileRequest) -> bool {
    &&& req.form.result is None
    &&& req.form.root_path == Some(req.root)
}

/// Whether the names are plain ones, of which there is at least one.
pub open spec fn plain_names(names: Seq<Seq<char>>) -> bool {
    &&& names.len() > 0
    &&& forall|i: int| 0 <= i < names.len() ==> clean_segment(#[trigger] names[i])
}

/// What holds of a destination: the file goes, over plain names, to a directory at or below
/// the workspace folder that the form names.
pub open spec fn place_ok(place: Placement) -> bool {
    &&& place.form.result is None
    &&& place.form.root_path == Some(place.root)
    &&& plain_names(place.target@.names)
    &&& place.final_rel@ == join(place.target@.names, '/')
    &&& place.target@.base == place.root@
    &&& place.parent@ == dir_of(place.target@)
}

/// Whether two places are entries of one directory.
pub open spec fn beside(entry: EntryView, other: EntryView) -> bool {
    entry.names.len() > 0 && other.names.len() > 0 && dir_of(entry) == dir_of(other)
}

/// What holds of a file on its way: it goes to a good destination by a staging file beside
/// it, and no more bytes are written than allowed.
pub open spec fn staged_ok(staged: Staged) -> bool {
    &&& place_ok(staged.place)
    &&& beside(staged.staging@, staged.place.target@)
    &&& plain_names(staged.staging@.names)
    &&& staged.written <= staged.place.form.max_bytes
}

/// What holds of a step.
pub open spec fn step_ok(step: UploadStep) -> bool {
    match step {
        UploadStep::NextField(form) => form_ok(form),
        UploadStep::ReadText(form, _) => form_ok(form),
        UploadStep::Drain(form) => form_ok(form),
        UploadStep::CheckRoot(req) => request_ok(req),
        UploadStep::CanonicalizeRoot(req, _) => request_ok(req),
        UploadStep::ProbeLink(place, _) => place_ok(place),
        UploadStep::CreateDirs(place) => place_ok(place),
        UploadStep::CanonicalizeParent(place) => place_ok(place),
        UploadStep::InspectTarget(place) => place_ok(place),
        UploadStep::OpenStaging(staged) => staged_ok(staged),
        UploadStep::ReadChunk(staged) => staged_ok(staged),
        UploadStep::WriteChunk(staged, total, _) => staged_ok(staged) && staged.written <= total
            <= staged.place.form.max_bytes,
        UploadStep::Flush(staged) => staged_ok(staged),
        UploadStep::HardLink(staged) => staged_ok(staged),
        UploadStep::Rename(staged, _) => staged_ok(staged),
        UploadStep::RemoveStaging(staged) => staged_ok(staged),
        UploadStep::VerifyTarget(staged, _) => staged_ok(staged),
        UploadStep::CheckFinal(staged, _) => staged_ok(staged),
        UploadStep::DiscardStaging(staged, _) => staged_ok(staged),
        UploadStep::RemoveFinal(staged, _) => staged_ok(staged),
        UploadStep::Done(_) => true,
        UploadStep::Fail(_) => true,
    }
}

/// A failure says exactly what it is said to say; so does one that comes once the staging file,
/// or the destination, is removed, and the file that is removed is that of the upload.
pub proof fn law_failure_says_what_it_is_said_to(
    step: UploadStep,
    staged: Staged,
    e: AppErrorView,
)
    ensures
        fails(step, e) <==> step is Fail && step->Fail_0@ == e,
        discards(step, staged, e) <==> step is DiscardStaging && step->DiscardStaging_0 == staged
            && step->DiscardStaging_1@ == e,
        retracts(step, staged, e) <==> step is RemoveFinal && step->RemoveFinal_0 == staged
            && step->RemoveFinal_1@ == e,
{
}

} // verus!
