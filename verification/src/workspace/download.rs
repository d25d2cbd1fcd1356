//! Sending a file, or a directory as an archive, to a browser.
//!
//! A download is a sequence of steps. Each `DownloadStep` says what to do next and which
//! function of this module takes the outcome. Nothing is read before the path is known to
//! lie in the workspace.
use vstd::prelude::*;
use vstd::utf8::encode_utf8;
use crate::error::{invalid, io_failed, io_failure, os_failure, plain_error, AppCommandError, AppErrorCode, AppErrorView};
use crate::number::decimal;
use crate::text::{append_chars, chars_of, string_of};
use super::confine::{ensure_inside_root, inside_verdict, resolution};
use super::download_trace::may_follow;
use super::headers::{attachment_header, attachment_text, content_length_header};
use super::path::{base_name, file_name, joined, relative_verdict, resolve_relative_path, PathReading, ReadingView};
use super::path_laws::law_resolved_path_stays_below_root;

verus! {

/// What a browser asks for.
#[derive(Debug)]
pub struct DownloadWorkspaceParams {
    /// The workspace folder.
    pub root_path: String,
    /// The path below it.
    pub path: String,
}

/// Whether a file is sent as it is or a directory as an archive.
#[derive(Debug, Clone, Copy, PartialEq, Eq, Structural)]
pub enum DownloadKind {
    File,
    Directory,
}

/// What stands at a path, symlinks followed.
#[derive(Debug, Clone, Copy, PartialEq, Eq, Structural)]
pub enum EntryState {
    Missing,
    File,
    Directory,
    Other,
}

/// Where something in the workspace is.
#[derive(Debug)]
pub struct Location {
    /// The workspace folder.
    pub root: String,
    /// The path below it; none for the workspace folder itself.
    pub rel: Option<String>,
}

/// What is to be sent.
pub struct DownloadTarget {
    pub kind: DownloadKind,
    /// Where it is.
    pub location: Location,
    /// How the host reads the path of the workspace folder.
    pub root: PathReading,
    /// How the host reads the path of what is to be sent.
    pub path: PathReading,
    /// The name under which it is sent.
    pub name: String,
}

/// What came of building an archive.
pub enum ArchiveOutcome {
    /// The archive has this length.
    Built(u64),
    /// The archive was refused, or has failed.
    Failed(AppCommandError),
    /// The task that builds it did not come to an end, for the given reason.
    Lost(String),
}

/// The head of a response. A header without a value is left out.
pub struct ResponseHead {
    pub content_type: String,
    pub content_length: Option<Vec<u8>>,
    pub content_disposition: Option<Vec<u8>>,
}

/// How a download goes on.
pub enum DownloadStep {
    /// See whether the workspace folder is a directory and hand the answer to `root_found`, with
    /// the host's readings of both paths.
    CheckRoot(DownloadKind, DownloadWorkspaceParams),
    /// See what stands at the path and hand the answer to `target_found`.
    Inspect(DownloadTarget),
    /// Resolve the workspace folder and the path and hand both outcomes to `target_resolved`.
    Resolve(DownloadTarget),
    /// Ask how long the file is and hand the answer to `file_measured`.
    Measure(DownloadTarget),
    /// Wait for a slot to build an archive in and hand the outcome to `slot_acquired`.
    AcquireSlot(DownloadTarget),
    /// Create a temporary file and hand the outcome to `archive_created`.
    CreateArchive(DownloadTarget),
    /// Build the archive there and hand the outcome to `archive_built`.
    BuildArchive(DownloadTarget),
    /// Open the file, which has this length, and hand the outcome to `source_ready`.
    OpenFile(DownloadTarget, u64),
    /// Open the archive, which has this length, and hand the outcome to `source_ready`.
    OpenArchive(DownloadTarget, u64),
    /// Send this head, followed by what was opened.
    Respond(ResponseHead),
    /// The download is refused, or has failed.
    Fail(AppCommandError),
}

/// Whether the step is a failure that says `e`.
pub open spec fn download_fails(step: DownloadStep, e: AppErrorView) -> bool {
    step matches DownloadStep::Fail(f) && f@ == e
}

/// Starts the download of a file.
pub fn download_workspace_file(params: DownloadWorkspaceParams) -> (step: DownloadStep)
    ensures
        step == DownloadStep::CheckRoot(DownloadKind::File, params),
{
    DownloadStep::CheckRoot(DownloadKind::File, params)
}

/// Starts the download of a directory.
pub fn download_workspace_dir(params: DownloadWorkspaceParams) -> (step: DownloadStep)
    ensures
        step == DownloadStep::CheckRoot(DownloadKind::Directory, params),
{
    DownloadStep::CheckRoot(DownloadKind::Directory, params)
}

/// The last name of the path, or `other` where the path ends with none.
pub open spec fn name_or(path: ReadingView, other: Seq<char>) -> Seq<char> {
    match file_name(path.components) {
        Some(n) => n,
        None => other,
    }
}

/// The name under which something below the root is sent.
pub open spec fn sent_name(kind: DownloadKind, path: ReadingView) -> Seq<char> {
    match kind {
        DownloadKind::File => name_or(path, "download"@),
        DownloadKind::Directory => name_or(path, "folder"@) + ".zip"@,
    }
}

/// Whether the step that a request leads to, the workspace folder being there, is right, where
/// the host reads the workspace folder as `root` and the path as `rel`. The whole workspace can
/// be sent as an archive, by an empty path; anything else is found below the root.
pub open spec fn request_step(
    kind: DownloadKind,
    params: DownloadWorkspaceParams,
    root: ReadingView,
    rel: ReadingView,
    step: DownloadStep,
) -> bool {
    if kind == DownloadKind::Directory && params.path@.len() == 0 {
        &&& step matches DownloadStep::AcquireSlot(t)
        &&& t.kind == kind
        &&& t.location.root == params.root_path
        &&& t.location.rel is None
        &&& t.root@ == root
        &&& t.path@ == root
        &&& t.name@ == name_or(root, "workspace"@) + ".zip"@
    } else {
        match relative_verdict(rel) {
            Err(e) => download_fails(step, e),
            Ok(_) => {
                &&& step matches DownloadStep::Inspect(t)
                &&& t.kind == kind
                &&& t.location.root == params.root_path
                &&& t.location.rel == Some(params.path)
                &&& t.root@ == root
                &&& t.path@ == joined(root, rel)
                &&& t.name@ == sent_name(kind, t.path@)
            },
        }
    }
}

fn last_name_or(path: &PathReading, other: &str) -> (s: String)
    ensures
        s@ == name_or(path@, other@),
{
    match base_name(path) {
        Some(n) => n,
        None => other.to_owned(),
    }
}

fn zip_name(name: String) -> (s: String)
    ensures
        s@ == name@ + ".zip"@,
{
    let mut out = chars_of(name.as_str());
    append_chars(&mut out, &chars_of(".zip"));
    string_of(&out)
}

/// Goes on once it is known whether the workspace folder is a directory, and how the host reads
/// its path and the path below it.
pub fn root_found(
    kind: DownloadKind,
    params: DownloadWorkspaceParams,
    is_dir: bool,
    root: PathReading,
    rel: PathReading,
) -> (step: DownloadStep)
    ensures
        is_dir ==> request_step(kind, params, root@, rel@, step),
        !is_dir ==> download_fails(
            step,
            plain_error(AppErrorCode::NotFound, "Workspace folder does not exist"@),
        ),
        may_follow(DownloadStep::CheckRoot(kind, params), step),
{
    if !is_dir {
        return DownloadStep::Fail(AppCommandError::not_found("Workspace folder does not exist"));
    }
    if kind == DownloadKind::Directory && chars_of(params.path.as_str()).len() == 0 {
        let name = zip_name(last_name_or(&root, "workspace"));
        let path = root.copy();
        let location = Location { root: params.root_path, rel: None };
        assert(root@.components.take(root@.components.len() as int) =~= root@.components);
        return DownloadStep::AcquireSlot(DownloadTarget { kind, location, root, path, name });
    }
    match resolve_relative_path(&root, &rel) {
        Err(e) => DownloadStep::Fail(e),
        Ok(path) => {
            proof {
                law_resolved_path_stays_below_root(root@, rel@);
            }
            let name = match kind {
                DownloadKind::File => last_name_or(&path, "download"),
                DownloadKind::Directory => zip_name(last_name_or(&path, "folder")),
            };
            let location = Location { root: params.root_path, rel: Some(params.path) };
            DownloadStep::Inspect(DownloadTarget { kind, location, root, path, name })
        },
    }
}

/// Why something of this state cannot be sent as this kind of download, if so.
pub open spec fn state_refusal(kind: DownloadKind, state: EntryState) -> Option<AppErrorView> {
    match (kind, state) {
        (DownloadKind::File, EntryState::File) => None,
        (DownloadKind::File, EntryState::Missing) => Some(
            plain_error(AppErrorCode::NotFound, "File does not exist"@),
        ),
        (DownloadKind::File, _) => Some(invalid("Path is not a file"@)),
        (DownloadKind::Directory, EntryState::Directory) => None,
        (DownloadKind::Directory, EntryState::Missing) => Some(
            plain_error(AppErrorCode::NotFound, "Directory does not exist"@),
        ),
        (DownloadKind::Directory, _) => Some(invalid("Path is not a directory"@)),
    }
}

/// Goes on once it is known what stands at the path.
pub fn target_found(target: DownloadTarget, state: EntryState) -> (step: DownloadStep)
    ensures
        match state_refusal(target.kind, state) {
            None => step == DownloadStep::Resolve(target),
            Some(e) => download_fails(step, e),
        },
        may_follow(DownloadStep::Inspect(target), step),
{
    match target.kind {
        DownloadKind::File => match state {
            EntryState::File => DownloadStep::Resolve(target),
            EntryState::Missing => DownloadStep::Fail(
                AppCommandError::not_found("File does not exist"),
            ),
            _ => DownloadStep::Fail(AppCommandError::invalid_input("Path is not a file")),
        },
        DownloadKind::Directory => match state {
            EntryState::Directory => DownloadStep::Resolve(target),
            EntryState::Missing => DownloadStep::Fail(
                AppCommandError::not_found("Directory does not exist"),
            ),
            _ => DownloadStep::Fail(AppCommandError::invalid_input("Path is not a directory")),
        },
    }
}

/// The step that the resolved workspace folder and the resolved path lead to. Only what lies
/// in the workspace folder then is sent.
pub open spec fn resolved_step(
    target: DownloadTarget,
    root: Result<ReadingView, Seq<char>>,
    path: Result<ReadingView, Seq<char>>,
    step: DownloadStep,
) -> bool {
    match inside_verdict(root, path) {
        Err(e) => download_fails(step, e),
        Ok(_) => step == match target.kind {
            DownloadKind::File => DownloadStep::Measure(target),
            DownloadKind::Directory => DownloadStep::AcquireSlot(target),
        },
    }
}

/// Goes on with the workspace folder and the path resolved.
pub fn target_resolved(
    target: DownloadTarget,
    canonical_root: Result<PathReading, String>,
    canonical_path: Result<PathReading, String>,
) -> (step: DownloadStep)
    ensures
        resolved_step(target, resolution(canonical_root), resolution(canonical_path), step),
        may_follow(DownloadStep::Resolve(target), step),
{
    match ensure_inside_root(canonical_root, canonical_path) {
        Err(e) => DownloadStep::Fail(e),
        Ok(()) => match target.kind {
            DownloadKind::File => DownloadStep::Measure(target),
            DownloadKind::Directory => DownloadStep::AcquireSlot(target),
        },
    }
}

/// Goes on with the length of the file.
pub fn file_measured(target: DownloadTarget, size: Result<u64, String>) -> (step: DownloadStep)
    ensures
        match size {
            Ok(n) => step == DownloadStep::OpenFile(target, n),
            Err(reason) => download_fails(step, os_failure(reason@)),
        },
        may_follow(DownloadStep::Measure(target), step),
{
    match size {
        Ok(n) => DownloadStep::OpenFile(target, n),
        Err(reason) => DownloadStep::Fail(AppCommandError::io(reason.as_str())),
    }
}

/// Goes on once there is a slot to build an archive in.
pub fn slot_acquired(target: DownloadTarget, outcome: Result<(), String>) -> (step: DownloadStep)
    ensures
        match outcome {
            Ok(_) => step == DownloadStep::CreateArchive(target),
            Err(reason) => download_fails(
                step,
                io_failure("Zip concurrency gate closed"@, reason@),
            ),
        },
        may_follow(DownloadStep::AcquireSlot(target), step),
{
    match outcome {
        Ok(()) => DownloadStep::CreateArchive(target),
        Err(reason) => DownloadStep::Fail(io_failed("Zip concurrency gate closed", &reason)),
    }
}

/// Goes on after the temporary file for the archive was created.
pub fn archive_created(target: DownloadTarget, outcome: Result<(), String>) -> (step: DownloadStep)
    ensures
        match outcome {
            Ok(_) => step == DownloadStep::BuildArchive(target),
            Err(reason) => download_fails(
                step,
                io_failure("Failed to create zip temp file"@, reason@),
            ),
        },
        may_follow(DownloadStep::CreateArchive(target), step),
{
    match outcome {
        Ok(()) => DownloadStep::BuildArchive(target),
        Err(reason) => DownloadStep::Fail(io_failed("Failed to create zip temp file", &reason)),
    }
}

/// Goes on after the archive was built.
pub fn archive_built(target: DownloadTarget, outcome: ArchiveOutcome) -> (step: DownloadStep)
    ensures
        match outcome {
            ArchiveOutcome::Built(size) => step == DownloadStep::OpenArchive(target, size),
            ArchiveOutcome::Failed(e) => step == DownloadStep::Fail(e),
            ArchiveOutcome::Lost(reason) => download_fails(
                step,
                io_failure("Zip task failed"@, reason@),
            ),
        },
        may_follow(DownloadStep::BuildArchive(target), step),
{
    match outcome {
        ArchiveOutcome::Built(size) => DownloadStep::OpenArchive(target, size),
        ArchiveOutcome::Failed(e) => DownloadStep::Fail(e),
        ArchiveOutcome::Lost(reason) => DownloadStep::Fail(io_failed("Zip task failed", &reason)),
    }
}

/// What a kind of download is sent as.
pub open spec fn content_type_of(kind: DownloadKind) -> Seq<char> {
    match kind {
        DownloadKind::File => "application/octet-stream"@,
        DownloadKind::Directory => "application/zip"@,
    }
}

/// Whether `head` is the head of a response with `size` bytes under the given name.
pub open spec fn heads(
    head: ResponseHead,
    kind: DownloadKind,
    name: Seq<char>,
    size: u64,
) -> bool {
    &&& head.content_type@ == content_type_of(kind)
    &&& head.content_length matches Some(bytes)
    &&& bytes@ == encode_utf8(decimal(size as nat))
    &&& head.content_disposition matches Some(text)
    &&& text@ == encode_utf8(attachment_text(name))
}

/// The head of a response with `size` bytes under the given name. Every header has a value.
pub fn response_head(kind: DownloadKind, name: &str, size: u64) -> (head: ResponseHead)
    ensures
        heads(head, kind, name@, size),
{
    let content_type = match kind {
        DownloadKind::File => "application/octet-stream",
        DownloadKind::Directory => "application/zip",
    };
    ResponseHead {
        content_type: content_type.to_owned(),
        content_length: content_length_header(size),
        content_disposition: attachment_header(name),
    }
}

/// Goes on after the file, or the archive, was opened.
pub fn source_ready(target: DownloadTarget, size: u64, outcome: Result<(), String>) -> (step:
    DownloadStep)
    ensures
        match outcome {
            Ok(_) => step matches DownloadStep::Respond(head) && heads(
                head,
                target.kind,
                target.name@,
                size,
            ),
            Err(reason) => download_fails(step, os_failure(reason@)),
        },
        may_follow(DownloadStep::OpenFile(target, size), step),
        may_follow(DownloadStep::OpenArchive(target, size), step),
{
    match outcome {
        Ok(()) => DownloadStep::Respond(response_head(target.kind, target.name.as_str(), size)),
        Err(reason) => DownloadStep::Fail(AppCommandError::io(reason.as_str())),
    }
}

} // verus!
