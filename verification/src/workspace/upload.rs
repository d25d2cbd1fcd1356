//! Storing one uploaded file in a workspace.
//!
//! An upload is a sequence of steps. Each `UploadStep` says what to do next and which
//! function of this module takes the outcome. Text fields come first; the file goes to a
//! staging file beside its destination and is then linked into place, which never overwrites
//! a file of the same name; only where links do not work is it renamed. No directory is
//! created before the way to it is known to be free of symlinks.
use vstd::prelude::*;
use crate::error::{invalid, io_failed, io_failure, os_failure, plain_error, AppCommandError, AppErrorCode, AppErrorView, TooLarge};
use crate::number::{decimal, write_u64};
use crate::outside::{is_token, random_token};
use crate::text::{append_chars, chars_of, is_control, join, same_text, string_of};
use super::chain::{chain_after, chain_from, chain_probed, chain_start, ensure_no_symlink_in_chain, place_of, ChainStep, ChainView, ChainWalk, Probe};
use super::confine::{ensure_inside_root, escapes, inside_verdict, resolution};
use super::limits::{count_bytes, counted};
use super::path::{components, components_of, dir_of, entry_in, entry_names, file_name, joined, names_of, normal_names, parent_dir, parent_of, path_starts_with, posix_reading, read_posix_path, resolve_relative_path, starts_with, without_cur, ComponentView, EntryPath, EntryView, PathReading, ReadingView};
use super::path_laws::law_resolved_path_stays_below_root;
use super::upload_path::{clean_segment, compute_final_rel, hostile, law_clean_path_components, law_upload_segments_are_clean, upload_segments};
use super::upload_step::{beside, discards, fails, lies_below, plain_names, retracts, CommitMethod, FieldHead, FileRequest, LinkOutcome, MissingFile, Placement, Staged, TargetState, TextField, UploadForm, UploadStep, UploadWorkspaceFileResult};
use super::upload_trace::{begins, may_follow, root_resolved_as};

verus! {

/// Starts an upload of at most `max_bytes` bytes.
pub fn upload_workspace_file(max_bytes: u64) -> (step: UploadStep)
    ensures
        step == UploadStep::NextField(
            (UploadForm {
                root_path: None,
                target_path: None,
                relative_path: None,
                result: None,
                max_bytes,
            }),
        ),
        begins(step, max_bytes),
{
    UploadStep::NextField(
        UploadForm {
            root_path: None,
            target_path: None,
            relative_path: None,
            result: None,
            max_bytes,
        },
    )
}

/// The text field of this name, if there is one.
pub open spec fn text_field(name: Seq<char>) -> Option<TextField> {
    if name == "root_path"@ || name == "rootPath"@ {
        Some(TextField::RootPath)
    } else if name == "target_path"@ || name == "targetPath"@ {
        Some(TextField::TargetPath)
    } else if name == "relative_path"@ || name == "relativePath"@ {
        Some(TextField::RelativePath)
    } else {
        None
    }
}

/// What a field is called; a field without a name is called nothing.
pub open spec fn head_name(head: FieldHead) -> Seq<char> {
    match head.name {
        Some(n) => n@,
        None => Seq::empty(),
    }
}

/// The step that a `file` field leads to.
pub open spec fn file_step(form: UploadForm, head: FieldHead, step: UploadStep) -> bool {
    if form.result is Some {
        fails(step, invalid("Multiple `file` fields are not supported per request"@))
    } else {
        match form.root_path {
            None => fails(step, invalid("root_path field must appear before the file field"@)),
            Some(root) => {
                &&& step matches UploadStep::CheckRoot(req)
                &&& req.form == form
                &&& req.root == root
                &&& req.file_name@ == match head.file_name {
                    Some(n) => n@,
                    None => "file"@,
                }
            },
        }
    }
}

/// The step that a field leads to: the text of a text field is read, the file is sent to its
/// destination, and any other field is read over.
pub open spec fn field_step(form: UploadForm, head: FieldHead, step: UploadStep) -> bool {
    match text_field(head_name(head)) {
        Some(field) => step == UploadStep::ReadText(form, field),
        None => if head_name(head) == "file"@ {
            file_step(form, head, step)
        } else {
            step == UploadStep::Drain(form)
        },
    }
}

fn which_text_field(name: &str) -> (r: Option<TextField>)
    ensures
        r == text_field(name@),
{
    if same_text(name, "root_path") || same_text(name, "rootPath") {
        Some(TextField::RootPath)
    } else if same_text(name, "target_path") || same_text(name, "targetPath") {
        Some(TextField::TargetPath)
    } else if same_text(name, "relative_path") || same_text(name, "relativePath") {
        Some(TextField::RelativePath)
    } else {
        None
    }
}

fn file_arrived(form: UploadForm, file_name: Option<String>) -> (step: UploadStep)
    ensures
        file_step(form, (FieldHead { name: None, file_name }), step),
{
    if form.result.is_some() {
        return UploadStep::Fail(
            AppCommandError::invalid_input("Multiple `file` fields are not supported per request"),
        );
    }
    let root = match &form.root_path {
        Some(root) => root.clone(),
        None => {
            return UploadStep::Fail(
                AppCommandError::invalid_input("root_path field must appear before the file field"),
            );
        },
    };
    let hint = match file_name {
        Some(n) => n,
        None => "file".to_owned(),
    };
    UploadStep::CheckRoot(FileRequest { form, root, file_name: hint })
}

/// Goes on with the next field. When there is none, the upload is done if it brought a file.
pub fn field_arrived(form: UploadForm, field: Result<Option<FieldHead>, String>) -> (step:
    UploadStep)
    ensures
        match field {
            Err(reason) => fails(step, io_failure("Invalid multipart upload"@, reason@)),
            Ok(None) => match form.result {
                Some(result) => step == UploadStep::Done(result),
                None => fails(step, invalid("Missing `file` field"@)),
            },
            Ok(Some(head)) => field_step(form, head, step),
        },
        may_follow(UploadStep::NextField(form), step),
{
    let head = match field {
        Err(reason) => {
            return UploadStep::Fail(io_failed("Invalid multipart upload", &reason));
        },
        Ok(None) => {
            return match form.result {
                Some(result) => UploadStep::Done(result),
                None => UploadStep::Fail(AppCommandError::invalid_input("Missing `file` field")),
            };
        },
        Ok(Some(head)) => head,
    };
    let name = match &head.name {
        Some(n) => n.clone(),
        None => String::new(),
    };
    match which_text_field(name.as_str()) {
        Some(field) => UploadStep::ReadText(form, field),
        None => if same_text(name.as_str(), "file") {
            file_arrived(form, head.file_name)
        } else {
            UploadStep::Drain(form)
        },
    }
}

/// The form with the text of a field filled in.
pub open spec fn with_text(form: UploadForm, field: TextField, text: String) -> UploadForm {
    match field {
        TextField::RootPath => UploadForm { root_path: Some(text), ..form },
        TextField::TargetPath => UploadForm { target_path: Some(text), ..form },
        TextField::RelativePath => UploadForm { relative_path: Some(text), ..form },
    }
}

/// The message for a text field that cannot be read.
pub open spec fn unreadable(field: TextField) -> Seq<char> {
    match field {
        TextField::RootPath => "Failed to read root_path field"@,
        TextField::TargetPath => "Failed to read target_path field"@,
        TextField::RelativePath => "Failed to read relative_path field"@,
    }
}

/// Goes on with the text of a field; a later field of the same kind takes its place.
pub fn text_read(form: UploadForm, field: TextField, text: Result<String, String>) -> (step:
    UploadStep)
    ensures
        match text {
            Ok(t) => step == UploadStep::NextField(with_text(form, field, t)),
            Err(reason) => fails(step, io_failure(unreadable(field), reason@)),
        },
        may_follow(UploadStep::ReadText(form, field), step),
{
    match text {
        Ok(t) => match field {
            TextField::RootPath => UploadStep::NextField(
                UploadForm {
                    root_path: Some(t),
                    target_path: form.target_path,
                    relative_path: form.relative_path,
                    result: form.result,
                    max_bytes: form.max_bytes,
                },
            ),
            TextField::TargetPath => UploadStep::NextField(
                UploadForm {
                    root_path: form.root_path,
                    target_path: Some(t),
                    relative_path: form.relative_path,
                    result: form.result,
                    max_bytes: form.max_bytes,
                },
            ),
            TextField::RelativePath => UploadStep::NextField(
                UploadForm {
                    root_path: form.root_path,
                    target_path: form.target_path,
                    relative_path: Some(t),
                    result: form.result,
                    max_bytes: form.max_bytes,
                },
            ),
        },
        Err(reason) => {
            let message = match field {
                TextField::RootPath => "Failed to read root_path field",
                TextField::TargetPath => "Failed to read target_path field",
                TextField::RelativePath => "Failed to read relative_path field",
            };
            UploadStep::Fail(io_failed(message, &reason))
        },
    }
}

/// Goes on after a field was read over.
pub fn field_drained(form: UploadForm) -> (step: UploadStep)
    ensures
        step == UploadStep::NextField(form),
        may_follow(UploadStep::Drain(form), step),
{
    UploadStep::NextField(form)
}

/// Goes on once it is known whether the workspace folder is a directory, and how the host reads
/// its path.
pub fn root_checked(req: FileRequest, is_dir: bool, reading: PathReading) -> (step: UploadStep)
    ensures
        is_dir ==> step == UploadStep::CanonicalizeRoot(req, reading),
        !is_dir ==> fails(
            step,
            plain_error(AppErrorCode::NotFound, "Workspace folder does not exist"@),
        ),
        may_follow(UploadStep::CheckRoot(req), step),
{
    if is_dir {
        UploadStep::CanonicalizeRoot(req, reading)
    } else {
        UploadStep::Fail(AppCommandError::not_found("Workspace folder does not exist"))
    }
}

/// The text of a field, or nothing where it did not come.
pub open spec fn given(text: Option<String>) -> Seq<char> {
    match text {
        Some(t) => t@,
        None => Seq::empty(),
    }
}

/// The names, one below the other, that lead from the root to the place that the request asks
/// for.
pub open spec fn wanted_names(req: FileRequest) -> Result<Seq<Seq<char>>, AppErrorView> {
    upload_segments(given(req.form.target_path), given(req.form.relative_path), req.file_name@)
}

/// Whether `place` is the destination of the request, where `names` lead there from the root.
pub open spec fn places(
    place: Placement,
    req: FileRequest,
    canonical: PathReading,
    names: Seq<Seq<char>>,
) -> bool {
    &&& place.form == req.form
    &&& place.root == req.root
    &&& place.canonical_root == canonical
    &&& place.final_rel@ == join(names, '/')
    &&& place.target@ == (EntryView { base: req.root@, names })
    &&& place.parent@ == (EntryView { base: req.root@, names: names.drop_last() })
}

/// Whether the step goes on with the walk: it asks about the next path, creates the
/// directory if the way is clear, and fails if the walk is refused.
pub open spec fn follows_walk(step: UploadStep, place: Placement, walk: ChainView) -> bool {
    match walk {
        ChainView::Probe(current, rest) => step matches UploadStep::ProbeLink(p, w) && p == place
            && w.current@ == current && components_of(w.rest@) == rest,
        ChainView::Clear => step == UploadStep::CreateDirs(place),
        ChainView::Rejected(e) => fails(step, e),
    }
}

/// The directory of the file that `names` lead to from the root.
pub open spec fn dir_reading(root: ReadingView, names: Seq<Seq<char>>) -> ReadingView {
    parent_of(joined(root, posix_reading(join(names, '/'))))->0
}

/// Whether the step is the first one of the walk from the root toward the directory of the
/// destination.
pub open spec fn starts_walk(
    step: UploadStep,
    req: FileRequest,
    root: ReadingView,
    canonical: PathReading,
    names: Seq<Seq<char>>,
) -> bool {
    match chain_start(req.root@, root, dir_reading(root, names)) {
        ChainView::Probe(current, rest) => step matches UploadStep::ProbeLink(p, w) && places(
            p,
            req,
            canonical,
            names,
        ) && w.current@ == current && components_of(w.rest@) == rest,
        ChainView::Clear => step matches UploadStep::CreateDirs(p) && places(
            p,
            req,
            canonical,
            names,
        ),
        ChainView::Rejected(e) => fails(step, e),
    }
}

fn walk_on(place: Placement, walk: ChainStep) -> (step: UploadStep)
    ensures
        follows_walk(step, place, walk@),
{
    match walk {
        ChainStep::Probe(w) => UploadStep::ProbeLink(place, w),
        ChainStep::Clear => UploadStep::CreateDirs(place),
        ChainStep::Rejected(e) => UploadStep::Fail(e),
    }
}

/// The named entries of the given names.
pub open spec fn entries(names: Seq<Seq<char>>) -> Seq<ComponentView> {
    names.map_values(|n: Seq<char>| ComponentView::Normal(n))
}

/// Plain names lead to a place below any root: the path that they make is one below a root,
/// joined to the root it keeps the root's components and ends with the names, and a walk
/// toward its directory goes through all names but the last.
pub proof fn law_destination_lies_below_root(
    base: Seq<char>,
    root: ReadingView,
    names: Seq<Seq<char>>,
)
    requires
        plain_names(names),
    ensures
        ({
            let rel = join(names, '/');
            let path = joined(root, posix_reading(rel));
            &&& lies_below(rel)
            &&& components(rel) == entries(names)
            &&& file_name(components(rel)) == Some(names.last())
            &&& path.components == root.components + entries(names)
            &&& file_name(path.components) == Some(names.last())
            &&& parent_of(path) is Some
            &&& starts_with(dir_reading(root, names).components, root.components)
            &&& chain_start(base, root, dir_reading(root, names)) == chain_from(
                place_of(base),
                entries(names.drop_last()),
            )
            &&& !(chain_start(base, root, dir_reading(root, names)) is Rejected)
        }),
{
    let rel = join(names, '/');
    let path = joined(root, posix_reading(rel));
    law_clean_path_components(names);
    let comps = components(rel);
    assert(comps =~= entries(names));
    assert(comps.last() == ComponentView::Normal(names.last()));
    lemma_without_cur_of_normal(comps);
    law_resolved_path_stays_below_root(root, posix_reading(rel));
    assert(path.components =~= root.components + comps);
    assert(path.components.last() == ComponentView::Normal(names.last()));
    let dir = dir_reading(root, names).components;
    let below = entries(names.drop_last());
    assert(dir =~= root.components + below);
    assert(dir.take(root.components.len() as int) =~= root.components);
    assert(dir.skip(root.components.len() as int) =~= below);
    assert(below.len() > 0 ==> below[0] is Normal);
}

proof fn lemma_normal_names_of_entries(names: Seq<Seq<char>>)
    ensures
        normal_names(entries(names)) == names,
    decreases names.len(),
{
    if names.len() > 0 {
        lemma_normal_names_of_entries(names.drop_last());
        assert(entries(names).drop_last() =~= entries(names.drop_last()));
        assert(normal_names(entries(names)) =~= names);
    } else {
        assert(normal_names(entries(names)) =~= names);
    }
}

proof fn lemma_without_cur_of_normal(comps: Seq<ComponentView>)
    requires
        forall|i: int| 0 <= i < comps.len() ==> #[trigger] comps[i] is Normal,
    ensures
        without_cur(comps) == comps,
    decreases comps.len(),
{
    if comps.len() > 0 {
        let init = comps.drop_last();
        assert forall|i: int| 0 <= i < init.len() implies #[trigger] init[i] is Normal by {
            assert(init[i] == comps[i]);
        }
        lemma_without_cur_of_normal(init);
        assert(comps[comps.len() - 1] is Normal);
        assert(without_cur(comps) =~= comps);
    } else {
        assert(without_cur(comps) =~= comps);
    }
}

/// Goes on with the resolved workspace folder: settles the destination and starts the walk
/// toward its directory.
pub fn root_canonicalized(
    req: FileRequest,
    root: PathReading,
    canonical: Result<PathReading, String>,
) -> (step: UploadStep)
    ensures
        match canonical {
            Err(reason) => fails(step, os_failure(reason@)),
            Ok(c) => match wanted_names(req) {
                Err(e) => fails(step, e),
                Ok(names) => starts_walk(step, req, root@, c, names),
            },
        },
        canonical is Ok && wanted_names(req) is Ok ==> step is ProbeLink || step is CreateDirs,
        root_resolved_as(step, resolution(canonical)),
        may_follow(UploadStep::CanonicalizeRoot(req, root), step),
{
    let canonical_root = match canonical {
        Err(reason) => {
            return UploadStep::Fail(AppCommandError::io(reason.as_str()));
        },
        Ok(c) => c,
    };
    let target = match &req.form.target_path {
        Some(t) => t.as_str(),
        None => "",
    };
    let relative = match &req.form.relative_path {
        Some(t) => t.as_str(),
        None => "",
    };
    proof {
        reveal_strlit("");
        assert(""@ =~= Seq::<char>::empty());
    }
    let final_rel = match compute_final_rel(target, relative, req.file_name.as_str()) {
        Ok(rel) => rel,
        Err(e) => {
            return UploadStep::Fail(e);
        },
    };
    let ghost parts = upload_segments(target@, relative@, req.file_name@)->Ok_0;
    proof {
        law_upload_segments_are_clean(target@, relative@, req.file_name@);
        law_destination_lies_below_root(req.root@, root@, parts);
        lemma_normal_names_of_entries(parts);
    }
    let rel = read_posix_path(final_rel.as_str());
    let path = match resolve_relative_path(&root, &rel) {
        Ok(path) => path,
        Err(e) => {
            return UploadStep::Fail(e);
        },
    };
    let dir = match parent_dir(&path) {
        Some(p) => p,
        None => {
            return UploadStep::Fail(
                AppCommandError::invalid_input("Cannot determine parent directory"),
            );
        },
    };
    let walk = ensure_no_symlink_in_chain(req.root.as_str(), &root, dir);
    let target_entry = EntryPath { base: req.root.clone(), names: entry_names(&rel.components) };
    let parent = target_entry.dir();
    let place = Placement {
        form: req.form,
        root: req.root,
        canonical_root,
        final_rel,
        target: target_entry,
        parent,
    };
    walk_on(place, walk)
}

/// Goes on with the walk after the answer about its current path.
pub fn link_probed(place: Placement, walk: ChainWalk, answer: Probe) -> (step: UploadStep)
    ensures
        follows_walk(
            step,
            place,
            chain_after(walk.current@, components_of(walk.rest@), answer@),
        ),
        may_follow(UploadStep::ProbeLink(place, walk), step),
{
    walk_on(place, chain_probed(walk, answer))
}

/// Goes on after the directory of the destination was created.
pub fn dirs_created(place: Placement, outcome: Result<(), String>) -> (step: UploadStep)
    ensures
        match outcome {
            Ok(_) => step == UploadStep::CanonicalizeParent(place),
            Err(reason) => fails(step, io_failure("Failed to create upload directory"@, reason@)),
        },
        may_follow(UploadStep::CreateDirs(place), step),
{
    match outcome {
        Ok(()) => UploadStep::CanonicalizeParent(place),
        Err(reason) => UploadStep::Fail(io_failed("Failed to create upload directory", &reason)),
    }
}

/// The step that the resolved directory of the destination leads to: it must lie in the
/// resolved workspace folder.
pub open spec fn parent_step(
    place: Placement,
    canonical: Result<ReadingView, Seq<char>>,
    step: UploadStep,
) -> bool {
    match canonical {
        Err(reason) => fails(step, os_failure(reason)),
        Ok(dir) => if starts_with(dir.components, place.canonical_root@.components) {
            step == UploadStep::InspectTarget(place)
        } else {
            fails(step, escapes())
        },
    }
}

/// Goes on with the resolved directory of the destination.
pub fn parent_canonicalized(place: Placement, canonical: Result<PathReading, String>) -> (step:
    UploadStep)
    ensures
        parent_step(place, resolution(canonical), step),
        may_follow(UploadStep::CanonicalizeParent(place), step),
{
    match canonical {
        Err(reason) => UploadStep::Fail(AppCommandError::io(reason.as_str())),
        Ok(c) => if path_starts_with(&c, &place.canonical_root) {
            UploadStep::InspectTarget(place)
        } else {
            UploadStep::Fail(AppCommandError::invalid_input("Resolved path escapes workspace root"))
        },
    }
}

/// The name of the staging file for a token.
pub open spec fn staging_name_of(token: Seq<char>) -> Seq<char> {
    ".codeg-upload-"@ + token + ".part"@
}

/// The name of the staging file for a token.
pub fn staging_name(token: &str) -> (s: String)
    ensures
        s@ == staging_name_of(token@),
{
    let mut out = chars_of(".codeg-upload-");
    append_chars(&mut out, &chars_of(token));
    append_chars(&mut out, &chars_of(".part"));
    string_of(&out)
}

/// A staging file has a plain name and stands beside the destination, whatever its token.
pub proof fn law_staging_file_is_beside_destination(target: EntryView, token: Seq<char>)
    requires
        is_token(token),
        plain_names(target.names),
    ensures
        beside(entry_in(dir_of(target), staging_name_of(token)), target),
        plain_names(entry_in(dir_of(target), staging_name_of(token)).names),
{
    let name = staging_name_of(token);
    let staging = entry_in(dir_of(target), name);
    reveal_strlit(".codeg-upload-");
    reveal_strlit(".part");
    assert forall|i: int| 0 <= i < name.len() implies !is_control(#[trigger] name[i]) && !hostile(
        name[i],
    ) by {
        if 14 <= i < 46 {
            assert(name[i] == token[i - 14]);
        }
    }
    assert(clean_segment(name));
    assert(staging.names.drop_last() =~= target.names.drop_last());
    assert forall|i: int| 0 <= i < staging.names.len() implies clean_segment(
        #[trigger] staging.names[i],
    ) by {
        if i < target.names.len() - 1 {
            assert(staging.names[i] == target.names[i]);
        }
    }
}

/// The file with a staging file for the given token, of which nothing is written yet.
pub fn stage(place: Placement, token: &str) -> (s: Staged)
    ensures
        s.place == place,
        s.staging@ == entry_in(place.parent@, staging_name_of(token@)),
        s.written == 0,
{
    let staging = place.parent.copy().enter(staging_name(token).as_str());
    Staged { place, staging, written: 0 }
}

/// Goes on once it is known what stands at the destination. Only if nothing does, a staging
/// file of a new name is asked for.
pub fn target_inspected(place: Placement, state: TargetState) -> (step: UploadStep)
    ensures
        match state {
            TargetState::Directory => fails(
                step,
                invalid("Refusing to overwrite an existing directory with a file"@),
            ),
            TargetState::Present => fails(step, name_taken()),
            TargetState::Absent => {
                &&& step matches UploadStep::OpenStaging(s)
                &&& s.place == place
                &&& s.written == 0
                &&& exists|token: Seq<char>| #[trigger]
                    is_token(token) && s.staging@ == entry_in(place.parent@, staging_name_of(token))
            },
        },
        may_follow(UploadStep::InspectTarget(place), step),
{
    match state {
        TargetState::Directory => UploadStep::Fail(
            AppCommandError::invalid_input(
                "Refusing to overwrite an existing directory with a file",
            ),
        ),
        TargetState::Present => UploadStep::Fail(
            AppCommandError::already_exists("A file with this name already exists"),
        ),
        TargetState::Absent => {
            let token = random_token();
            assert(is_token(token@));
            UploadStep::OpenStaging(stage(place, token.as_str()))
        },
    }
}

/// The refusal of a destination where a file stands already.
pub open spec fn name_taken() -> AppErrorView {
    plain_error(AppErrorCode::AlreadyExists, "A file with this name already exists"@)
}

/// Goes on after the staging file was created.
pub fn staging_opened(staged: Staged, outcome: Result<(), String>) -> (step: UploadStep)
    ensures
        match outcome {
            Ok(_) => step == UploadStep::ReadChunk(staged),
            Err(reason) => fails(step, io_failure("Failed to create staging file"@, reason@)),
        },
        may_follow(UploadStep::OpenStaging(staged), step),
{
    match outcome {
        Ok(()) => UploadStep::ReadChunk(staged),
        Err(reason) => UploadStep::Fail(io_failed("Failed to create staging file", &reason)),
    }
}

/// The refusal of a file that is too large.
pub open spec fn too_large(size: u64, limit: u64) -> AppErrorView {
    AppErrorView {
        code: AppErrorCode::IoError,
        message: "Upload exceeds the maximum allowed size"@,
        detail: Some(
            "size="@ + decimal(size as nat) + " limit="@ + decimal(limit as nat),
        ),
        too_large: Some(TooLarge { size, limit }),
    }
}

fn too_large_error(size: u64, limit: u64) -> (e: AppCommandError)
    ensures
        e@ == too_large(size, limit),
{
    let mut detail = chars_of("size=");
    append_chars(&mut detail, &write_u64(size));
    append_chars(&mut detail, &chars_of(" limit="));
    append_chars(&mut detail, &write_u64(limit));
    let detail = string_of(&detail);
    AppCommandError::io_error("Upload exceeds the maximum allowed size").with_detail(
        detail.as_str(),
    ).with_too_large(size, limit)
}

/// What reading a chunk brought: its bytes, the end of the file, or why neither.
pub open spec fn chunk_answer(chunk: Result<Option<Vec<u8>>, String>) -> Result<
    Option<Seq<u8>>,
    Seq<char>,
> {
    match chunk {
        Ok(Some(bytes)) => Ok(Some(bytes@)),
        Ok(None) => Ok(None),
        Err(reason) => Err(reason@),
    }
}

/// The step that a chunk of the file, or its end, leads to. A chunk that would bring the file
/// over the limit is not written.
pub open spec fn chunk_step(
    staged: Staged,
    chunk: Result<Option<Seq<u8>>, Seq<char>>,
    step: UploadStep,
) -> bool {
    match chunk {
        Err(reason) => discards(step, staged, io_failure("Failed to read upload chunk"@, reason)),
        Ok(None) => step == UploadStep::Flush(staged),
        Ok(Some(bytes)) => match counted(
            staged.written,
            bytes.len() as u64,
            staged.place.form.max_bytes,
        ) {
            Ok(total) => step matches UploadStep::WriteChunk(s, t, b) && s == staged && t == total
                && b@ == bytes,
            Err(total) => discards(step, staged, too_large(total, staged.place.form.max_bytes)),
        },
    }
}

/// Goes on with a chunk of the file, or with its end.
pub fn chunk_read(staged: Staged, chunk: Result<Option<Vec<u8>>, String>) -> (step: UploadStep)
    ensures
        chunk_step(staged, chunk_answer(chunk), step),
        may_follow(UploadStep::ReadChunk(staged), step),
{
    match chunk {
        Err(reason) => UploadStep::DiscardStaging(
            staged,
            io_failed("Failed to read upload chunk", &reason),
        ),
        Ok(None) => UploadStep::Flush(staged),
        Ok(Some(bytes)) => {
            let limit: u64 = staged.place.form.max_bytes;
            match count_bytes(staged.written, bytes.len() as u64, limit) {
                Ok(total) => UploadStep::WriteChunk(staged, total, bytes),
                Err(total) => UploadStep::DiscardStaging(staged, too_large_error(total, limit)),
            }
        },
    }
}

/// Goes on after a chunk was written, which brought the file to the length `total`.
pub fn chunk_written(staged: Staged, total: u64, outcome: Result<(), String>) -> (step: UploadStep)
    ensures
        match outcome {
            Ok(_) => step == UploadStep::ReadChunk((Staged { written: total, ..staged })),
            Err(reason) => discards(step, staged, io_failure("Failed to write chunk"@, reason@)),
        },
        forall|bytes: Vec<u8>|
            #[trigger] may_follow(UploadStep::WriteChunk(staged, total, bytes), step),
{
    match outcome {
        Ok(()) => UploadStep::ReadChunk(
            Staged { place: staged.place, staging: staged.staging, written: total },
        ),
        Err(reason) => UploadStep::DiscardStaging(
            staged,
            io_failed("Failed to write chunk", &reason),
        ),
    }
}

/// Goes on after the staging file was flushed. An empty file is as good as any.
pub fn staging_flushed(staged: Staged, outcome: Result<(), String>) -> (step: UploadStep)
    ensures
        match outcome {
            Ok(_) => step == UploadStep::HardLink(staged),
            Err(reason) => discards(
                step,
                staged,
                io_failure("Failed to flush staging file"@, reason@),
            ),
        },
        may_follow(UploadStep::Flush(staged), step),
{
    match outcome {
        Ok(()) => UploadStep::HardLink(staged),
        Err(reason) => UploadStep::DiscardStaging(
            staged,
            io_failed("Failed to flush staging file", &reason),
        ),
    }
}

/// Goes on after the staging file was linked to the destination. A file that came to stand
/// there in the meantime is left alone; where links do not work, the staging file is renamed.
pub fn staging_linked(staged: Staged, outcome: LinkOutcome) -> (step: UploadStep)
    ensures
        match outcome {
            LinkOutcome::Linked => step == UploadStep::RemoveStaging(staged),
            LinkOutcome::AlreadyExists => discards(step, staged, name_taken()),
            LinkOutcome::Failed(reason) => step == UploadStep::Rename(staged, reason),
        },
        may_follow(UploadStep::HardLink(staged), step),
{
    match outcome {
        LinkOutcome::Linked => UploadStep::RemoveStaging(staged),
        LinkOutcome::AlreadyExists => UploadStep::DiscardStaging(
            staged,
            AppCommandError::already_exists("A file with this name already exists"),
        ),
        LinkOutcome::Failed(reason) => UploadStep::Rename(staged, reason),
    }
}

/// Goes on after the staging file was removed, its link being in place.
pub fn staging_removed(staged: Staged) -> (step: UploadStep)
    ensures
        step == UploadStep::VerifyTarget(staged, CommitMethod::HardLink),
        may_follow(UploadStep::RemoveStaging(staged), step),
{
    UploadStep::VerifyTarget(staged, CommitMethod::HardLink)
}

/// The failure of both ways to put the file in place.
pub open spec fn commit_failure(link_reason: Seq<char>, rename_reason: Seq<char>) -> AppErrorView {
    io_failure(
        "Failed to commit upload"@,
        "hard_link_err="@ + link_reason + " rename_err="@ + rename_reason,
    )
}

/// Goes on after the staging file was renamed.
pub fn staging_renamed(staged: Staged, link_reason: String, outcome: Result<(), String>) -> (step:
    UploadStep)
    ensures
        match outcome {
            Ok(_) => step == UploadStep::VerifyTarget(staged, CommitMethod::Rename),
            Err(reason) => discards(step, staged, commit_failure(link_reason@, reason@)),
        },
        may_follow(UploadStep::Rename(staged, link_reason), step),
{
    match outcome {
        Ok(()) => UploadStep::VerifyTarget(staged, CommitMethod::Rename),
        Err(reason) => {
            let mut detail = chars_of("hard_link_err=");
            append_chars(&mut detail, &chars_of(link_reason.as_str()));
            append_chars(&mut detail, &chars_of(" rename_err="));
            append_chars(&mut detail, &chars_of(reason.as_str()));
            let detail = string_of(&detail);
            UploadStep::DiscardStaging(staged, io_failed("Failed to commit upload", &detail))
        },
    }
}

/// The step that the resolved workspace folder and the resolved destination lead to.
pub open spec fn verified_step(
    staged: Staged,
    method: CommitMethod,
    root: Result<ReadingView, Seq<char>>,
    target: Result<ReadingView, Seq<char>>,
    step: UploadStep,
) -> bool {
    match inside_verdict(root, target) {
        Ok(_) => step == UploadStep::CheckFinal(staged, method),
        Err(e) => retracts(step, staged, e),
    }
}

/// Goes on with the workspace folder and the destination resolved. If the destination does
/// not lie in the workspace folder, it is removed again.
pub fn target_verified(
    staged: Staged,
    method: CommitMethod,
    root: Result<PathReading, String>,
    target: Result<PathReading, String>,
) -> (step: UploadStep)
    ensures
        verified_step(staged, method, resolution(root), resolution(target), step),
        may_follow(UploadStep::VerifyTarget(staged, method), step),
{
    match ensure_inside_root(root, target) {
        Ok(()) => UploadStep::CheckFinal(staged, method),
        Err(e) => UploadStep::RemoveFinal(staged, e),
    }
}

/// What a way to put a file in place is called.
pub open spec fn method_name(method: CommitMethod) -> Seq<char> {
    match method {
        CommitMethod::HardLink => "hard_link"@,
        CommitMethod::Rename => "rename"@,
    }
}

/// The failure of an upload that went well and yet left no file.
pub open spec fn phantom(shown: Seq<char>, method: CommitMethod, reason: Seq<char>) -> AppErrorView {
    io_failure(
        "Upload appeared to succeed but the file is missing"@,
        "final_abs="@ + shown + " commit_method="@ + method_name(method) + " err="@ + reason,
    )
}

/// The last of the names, or `file` where there is none.
pub open spec fn last_or_file(names: Seq<Seq<char>>) -> Seq<char> {
    if names.len() > 0 {
        names.last()
    } else {
        "file"@
    }
}

/// What a client is told about the file.
pub open spec fn reports(result: UploadWorkspaceFileResult, staged: Staged) -> bool {
    &&& result.path == staged.place.final_rel
    &&& result.name@ == last_or_file(staged.place.target@.names)
    &&& result.size == staged.written
}

/// Whether the step goes on to the next field with the file stored.
pub open spec fn stored(step: UploadStep, staged: Staged) -> bool {
    &&& step matches UploadStep::NextField(form)
    &&& form.result matches Some(result)
    &&& reports(result, staged)
    &&& form == (UploadForm { result: Some(result), ..staged.place.form })
}

/// Goes on once it is known whether the file is there.
pub fn final_checked(staged: Staged, method: CommitMethod, present: Result<(), MissingFile>) -> (step:
    UploadStep)
    ensures
        match present {
            Ok(_) => stored(step, staged),
            Err(missing) => fails(step, phantom(missing.shown@, method, missing.reason@)),
        },
        may_follow(UploadStep::CheckFinal(staged, method), step),
{
    match present {
        Err(missing) => {
            let mut detail = chars_of("final_abs=");
            append_chars(&mut detail, &chars_of(missing.shown.as_str()));
            append_chars(&mut detail, &chars_of(" commit_method="));
            let method_text = match method {
                CommitMethod::HardLink => "hard_link",
                CommitMethod::Rename => "rename",
            };
            append_chars(&mut detail, &chars_of(method_text));
            append_chars(&mut detail, &chars_of(" err="));
            append_chars(&mut detail, &chars_of(missing.reason.as_str()));
            let detail = string_of(&detail);
            UploadStep::Fail(
                io_failed("Upload appeared to succeed but the file is missing", &detail),
            )
        },
        Ok(()) => {
            let names = &staged.place.target.names;
            assert(names_of(names@).len() == names@.len());
            let name = if names.len() > 0 {
                names[names.len() - 1].clone()
            } else {
                "file".to_owned()
            };
            let form = staged.place.form;
            UploadStep::NextField(
                UploadForm {
                    root_path: form.root_path,
                    target_path: form.target_path,
                    relative_path: form.relative_path,
                    result: Some(
                        UploadWorkspaceFileResult {
                            path: staged.place.final_rel,
                            name,
                            size: staged.written,
                        },
                    ),
                    max_bytes: form.max_bytes,
                },
            )
        },
    }
}

/// Fails once the staging file, or the destination, was removed.
pub fn file_removed(error: AppCommandError) -> (step: UploadStep)
    ensures
        step == UploadStep::Fail(error),
        forall|staged: Staged|
            #[trigger] may_follow(UploadStep::DiscardStaging(staged, error), step),
        forall|staged: Staged| #[trigger] may_follow(UploadStep::RemoveFinal(staged, error), step),
{
    UploadStep::Fail(error)
}

} // verus!
