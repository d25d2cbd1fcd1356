//! What each part of an upload leads to, told by what arrives and by what is found on disk.
use vstd::prelude::*;
use crate::error::{detailed_error, plain_error, AppErrorCode, AppErrorView, TooLarge};
use crate::number::decimal;
use crate::text::join;
use super::chain::{chain_after, ProbeView};
use super::confine::law_whatever_lies_in_the_root_is_accepted;
use super::limits::law_bytes_are_counted;
use super::path::{components_of, ComponentView, EntryView, PathReading, ReadingView};
use super::path_laws::law_path_begins_with_another;
use super::upload::{chunk_answer, chunk_step, commit_failure, entries, field_step, follows_walk, head_name, law_destination_lies_below_root, name_taken, parent_step, phantom, staging_name_of, starts_walk, stored, text_field, too_large, unreadable, verified_step, wanted_names, with_text};
use super::upload_path_laws::{law_file_name_stands_in_for_a_blank_path, law_plain_name_is_kept, law_plain_upload_is_stored_where_asked, plain_list, plain_name};
use super::upload_step::{plain_names, CommitMethod, FieldHead, FileRequest, Placement, Staged, TextField, UploadForm, UploadStep};

verus! {

/// The text fields and both spellings of each; nothing else is a text field.
pub proof fn law_text_fields_have_two_spellings(name: Seq<char>)
    ensures
        text_field(name) == Some(TextField::RootPath) <==> name == "root_path"@ || name
            == "rootPath"@,
        text_field(name) == Some(TextField::TargetPath) <==> name == "target_path"@ || name
            == "targetPath"@,
        text_field(name) == Some(TextField::RelativePath) <==> name == "relative_path"@ || name
            == "relativePath"@,
        text_field("file"@) is None,
        text_field(Seq::empty()) is None,
{
    reveal_strlit("root_path");
    reveal_strlit("rootPath");
    reveal_strlit("target_path");
    reveal_strlit("targetPath");
    reveal_strlit("relative_path");
    reveal_strlit("relativePath");
    reveal_strlit("file");
    assert("root_path"@.len() == 9 && "rootPath"@.len() == 8 && "target_path"@.len() == 11
        && "targetPath"@.len() == 10 && "relative_path"@.len() == 13 && "relativePath"@.len() == 12
        && "file"@.len() == 4);
}

/// Where a field leads: the text of a text field is read, as that field; any other field but
/// `file` is read over, and so is a field without a name.
pub proof fn law_field_is_read_by_its_name(
    form: UploadForm,
    head: FieldHead,
    name: Seq<char>,
    step: UploadStep,
)
    requires
        field_step(form, head, step),
        match head.name {
            Some(n) => n@ == name,
            None => name.len() == 0,
        },
    ensures
        name == "root_path"@ || name == "rootPath"@ ==> step == UploadStep::ReadText(
            form,
            TextField::RootPath,
        ),
        name == "target_path"@ || name == "targetPath"@ ==> step == UploadStep::ReadText(
            form,
            TextField::TargetPath,
        ),
        name == "relative_path"@ || name == "relativePath"@ ==> step == UploadStep::ReadText(
            form,
            TextField::RelativePath,
        ),
        name != "root_path"@ && name != "rootPath"@ && name != "target_path"@ && name
            != "targetPath"@ && name != "relative_path"@ && name != "relativePath"@ && name
            != "file"@ ==> step == UploadStep::Drain(form),
        head.name is None ==> step == UploadStep::Drain(form),
{
    law_text_fields_have_two_spellings(name);
    law_text_fields_have_two_spellings(Seq::empty());
    reveal_strlit("file");
    if head.name is None {
        assert(name =~= Seq::empty());
    }
    assert(head_name(head) =~= name);
}

/// Where the file leads: to the workspace folder that the form names, under the name that came
/// with it, or `file`; but a second file is refused, and so is one that comes before the
/// workspace folder.
pub proof fn law_file_goes_to_the_named_folder(
    form: UploadForm,
    head: FieldHead,
    step: UploadStep,
)
    requires
        field_step(form, head, step),
        head.name matches Some(n) && n@ == "file"@,
    ensures
        form.result is Some ==> (step matches UploadStep::Fail(e) && e@ == plain_error(
            AppErrorCode::InvalidInput,
            "Multiple `file` fields are not supported per request"@,
        )),
        form.result is None && form.root_path is None ==> (step matches UploadStep::Fail(e)
            && e@ == plain_error(
                AppErrorCode::InvalidInput,
                "root_path field must appear before the file field"@,
            )),
        form.result is None && form.root_path is Some ==> (step matches UploadStep::CheckRoot(req)
            && req.form == form && form.root_path == Some(req.root) && (
        head.file_name matches Some(n) ==> req.file_name@ == n@) && (head.file_name is None
            ==> req.file_name@ == "file"@)),
{
    law_text_fields_have_two_spellings("file"@);
}

/// A text fills its own field of the form and leaves the others, the result and the limit.
pub proof fn law_text_fills_its_field(form: UploadForm, field: TextField, text: String)
    ensures
        with_text(form, field, text).root_path == if field == TextField::RootPath {
            Some(text)
        } else {
            form.root_path
        },
        with_text(form, field, text).target_path == if field == TextField::TargetPath {
            Some(text)
        } else {
            form.target_path
        },
        with_text(form, field, text).relative_path == if field == TextField::RelativePath {
            Some(text)
        } else {
            form.relative_path
        },
        with_text(form, field, text).result == form.result,
        with_text(form, field, text).max_bytes == form.max_bytes,
{
}

/// A request whose target directory and relative path consist of plain names asks for exactly
/// those names, below each other; without a target directory for those of the relative path;
/// and without either for the name of the file, if that is a plain one.
pub proof fn law_plain_request_is_stored_where_asked(
    req: FileRequest,
    dir: Seq<Seq<char>>,
    path: Seq<Seq<char>>,
    sep: char,
)
    requires
        plain_list(dir),
        plain_list(path),
        sep == '/' || sep == '\\',
    ensures
        (req.form.target_path matches Some(t) && t@ == join(dir, sep)) && (
        req.form.relative_path matches Some(r) && r@ == join(path, sep)) ==> wanted_names(req)
            == Ok::<_, AppErrorView>(dir + path),
        (req.form.target_path is None || (req.form.target_path matches Some(t) && t@.len() == 0))
            && (req.form.relative_path matches Some(r) && r@ == join(path, sep)) ==> wanted_names(
            req,
        ) == Ok::<_, AppErrorView>(path),
        req.form.target_path is None && req.form.relative_path is None && plain_name(req.file_name@)
            ==> wanted_names(req) == Ok::<_, AppErrorView>(seq![req.file_name@]),
{
    let none = Seq::<char>::empty();
    law_plain_upload_is_stored_where_asked(dir, path, sep, none, req.file_name@);
    if req.form.target_path is Some && req.form.target_path->0@.len() == 0 {
        assert(req.form.target_path->0@ =~= none);
    }
    if plain_name(req.file_name@) {
        let name = req.file_name@;
        law_plain_name_is_kept(name);
        assert forall|i: int| 0 <= i < name.len() implies #[trigger] name[i] != '/' && name[i]
            != '\\' by {
            assert(0x20 <= (name[i] as u32));
        }
        law_file_name_stands_in_for_a_blank_path(none, none, none, '/', name);
    }
}

/// The destination of an upload is the place below the workspace folder that its names lead to.
/// The walk there begins with the first of them, if it is not the file itself; a file directly
/// in the workspace folder needs no walk.
pub proof fn law_walk_begins_at_the_root(
    step: UploadStep,
    req: FileRequest,
    root: ReadingView,
    canonical: PathReading,
    names: Seq<Seq<char>>,
)
    requires
        plain_names(names),
        starts_walk(step, req, root, canonical, names),
    ensures
        ({
            let place = match step {
                UploadStep::ProbeLink(p, _) => p,
                UploadStep::CreateDirs(p) => p,
                _ => arbitrary(),
            };
            &&& names.len() == 1 <==> step is CreateDirs
            &&& names.len() > 1 <==> step is ProbeLink
            &&& place.form == req.form
            &&& place.root == req.root
            &&& place.canonical_root == canonical
            &&& place.final_rel@ == join(names, '/')
            &&& place.target@ == (EntryView { base: req.root@, names })
            &&& place.parent@ == (EntryView { base: req.root@, names: names.drop_last() })
            &&& step matches UploadStep::ProbeLink(_, walk) ==> {
                &&& walk.current@ == (EntryView { base: req.root@, names: seq![names[0]] })
                &&& components_of(walk.rest@) == names.subrange(1, names.len() - 1).map_values(
                    |n: Seq<char>| ComponentView::Normal(n),
                )
            }
        }),
{
    law_destination_lies_below_root(req.root@, root, names);
    let below = entries(names.drop_last());
    if names.len() > 1 {
        assert(below[0] == ComponentView::Normal(names[0]));
        assert(below.drop_first() =~= names.subrange(1, names.len() - 1).map_values(
            |n: Seq<char>| ComponentView::Normal(n),
        ));
        assert(Seq::<Seq<char>>::empty().push(names[0]) =~= seq![names[0]]);
    } else {
        assert(below =~= Seq::empty());
    }
}

/// Where an answer about a place on the way leads: past anything that is there and no symlink to
/// the next name, or to the creation of the directory behind the last one; past what is missing
/// at once to that; and a symlink, or a question without an answer, ends the upload.
pub proof fn law_walk_goes_by_the_answers(
    step: UploadStep,
    place: Placement,
    current: EntryView,
    rest: Seq<ComponentView>,
    name: Seq<char>,
    answer: ProbeView,
)
    requires
        follows_walk(step, place, chain_after(current, rest, answer)),
    ensures
        answer is Missing ==> step == UploadStep::CreateDirs(place),
        answer is Other && rest.len() == 0 ==> step == UploadStep::CreateDirs(place),
        answer is Other && rest.len() > 0 && rest[0] == ComponentView::Normal(name) ==> (
        step matches UploadStep::ProbeLink(p, w) && p == place && w.current@.base == current.base
            && w.current@.names == current.names.push(name) && components_of(w.rest@)
            == rest.drop_first()),
        answer is Link ==> (step matches UploadStep::Fail(e) && e@ == plain_error(
            AppErrorCode::InvalidInput,
            "Upload path traverses a symlink; refuse to follow it"@,
        )),
        answer matches ProbeView::Failed(reason) ==> (step matches UploadStep::Fail(e)
            && e@ == plain_error(
            AppErrorCode::Os,
            reason,
        )),
{
}

/// A resolved directory that lies in the resolved workspace folder, at whatever depth, is taken;
/// any other one is refused.
pub proof fn law_directory_in_the_workspace_is_taken(
    place: Placement,
    dir: ReadingView,
    rest: Seq<ComponentView>,
    reason: Seq<char>,
    step: UploadStep,
)
    ensures
        parent_step(place, Ok(dir), step) && dir.components
            == place.canonical_root@.components + rest ==> step == UploadStep::InspectTarget(place),
        parent_step(place, Ok(dir), step) && step == UploadStep::InspectTarget(place)
            ==> dir.components == place.canonical_root@.components + dir.components.skip(
            place.canonical_root@.components.len() as int,
        ),
        parent_step(place, Ok(dir), step) && step != UploadStep::InspectTarget(place) ==> (
        step matches UploadStep::Fail(e) && e@ == plain_error(
            AppErrorCode::InvalidInput,
            "Resolved path escapes workspace root"@,
        )),
        parent_step(place, Err(reason), step) ==> (step matches UploadStep::Fail(e)
            && e@ == plain_error(
            AppErrorCode::Os,
            reason,
        )),
{
    law_path_begins_with_another(dir.components, place.canonical_root@.components, rest);
}

/// The staging file is hidden, tells its purpose, and has another name for another token.
pub proof fn law_staging_name_tells_tokens_apart(a: Seq<char>, b: Seq<char>)
    ensures
        staging_name_of(a).len() == a.len() + 19,
        staging_name_of(a)[0] == '.',
        staging_name_of(a).subrange(0, 14) == ".codeg-upload-"@,
        staging_name_of(a).subrange(14, 14 + a.len() as int) == a,
        staging_name_of(a).subrange(14 + a.len() as int, 19 + a.len() as int) == ".part"@,
        staging_name_of(a) == staging_name_of(b) <==> a == b,
{
    reveal_strlit(".codeg-upload-");
    reveal_strlit(".part");
    let x = staging_name_of(a);
    let y = staging_name_of(b);
    assert(x.subrange(0, 14) =~= ".codeg-upload-"@);
    assert(x.subrange(14, 14 + a.len() as int) =~= a);
    assert(y.subrange(14, 14 + b.len() as int) =~= b);
    assert(x.subrange(14 + a.len() as int, 19 + a.len() as int) =~= ".part"@);
}

/// A chunk is written, as it arrived, exactly if the file with it is within the limit; else the
/// staging file is removed. The end of the file leads on, whatever its length.
pub proof fn law_chunk_within_the_limit_is_written(
    staged: Staged,
    bytes: Seq<u8>,
    reason: Seq<char>,
    step: UploadStep,
)
    requires
        bytes.len() <= u64::MAX,
    ensures
        chunk_step(staged, Ok(None), step) ==> step == UploadStep::Flush(staged),
        chunk_step(staged, Ok(Some(bytes)), step) && staged.written + bytes.len()
            <= staged.place.form.max_bytes ==> (step matches UploadStep::WriteChunk(s, total, b) && s
            == staged && total == staged.written + bytes.len() && b@ == bytes),
        chunk_step(staged, Ok(Some(bytes)), step) && staged.place.form.max_bytes < staged.written
            + bytes.len() <= u64::MAX ==> (step matches UploadStep::DiscardStaging(s, e) && s
            == staged && e@ == too_large(
            (staged.written + bytes.len()) as u64,
            staged.place.form.max_bytes,
        )),
        chunk_step(staged, Ok(Some(bytes)), step) && staged.written + bytes.len() > u64::MAX
            && staged.place.form.max_bytes < u64::MAX ==> (step matches UploadStep::DiscardStaging(
            s,
            e,
        ) && s == staged && e@ == too_large(u64::MAX, staged.place.form.max_bytes)),
        chunk_step(staged, Ok(Some(bytes)), step) && staged.written + bytes.len() > u64::MAX
            && staged.place.form.max_bytes == u64::MAX ==> (step matches UploadStep::WriteChunk(
            s,
            total,
            b,
        ) && s == staged && total == u64::MAX && b@ == bytes),
        chunk_step(staged, Err(reason), step) ==> (step matches UploadStep::DiscardStaging(s, e) && s
            == staged && e@ == detailed_error(
                AppErrorCode::IoError,
                "Failed to read upload chunk"@,
                reason,
            )),
{
    law_bytes_are_counted(staged.written, bytes.len() as u64, staged.place.form.max_bytes);
}

/// A stored file that lies in the workspace folder once both are resolved stays, at whatever
/// depth; any other one, and one that cannot be resolved, is removed again.
pub proof fn law_file_in_the_workspace_stays(
    staged: Staged,
    method: CommitMethod,
    root: ReadingView,
    target: ReadingView,
    rest: Seq<ComponentView>,
    reason: Seq<char>,
    other: Result<ReadingView, Seq<char>>,
    step: UploadStep,
)
    ensures
        verified_step(staged, method, Ok(root), Ok(target), step) && target.components
            == root.components + rest ==> step == UploadStep::CheckFinal(staged, method),
        verified_step(staged, method, Ok(root), Ok(target), step) && !(target.components.len()
            >= root.components.len() && target.components == root.components
            + target.components.skip(root.components.len() as int)) ==> (
        step matches UploadStep::RemoveFinal(s, e) && s == staged && e@ == plain_error(
            AppErrorCode::InvalidInput,
            "Resolved path escapes workspace root"@,
        )),
        verified_step(staged, method, Err(reason), other, step) || verified_step(
            staged,
            method,
            Ok(root),
            Err(reason),
            step,
        ) ==> (step matches UploadStep::RemoveFinal(s, e) && s == staged && e@ == plain_error(
            AppErrorCode::Os,
            reason,
        )),
{
    law_whatever_lies_in_the_root_is_accepted(root, target, rest, reason, other);
    let behind = target.components.skip(root.components.len() as int);
    law_whatever_lies_in_the_root_is_accepted(root, target, behind, reason, other);
    law_path_begins_with_another(target.components, root.components, rest);
}

/// The client is told of a stored file where it is below the workspace folder, the last of its
/// names and how many bytes were written; the rest of the form stays.
pub proof fn law_stored_file_is_reported(step: UploadStep, staged: Staged)
    requires
        stored(step, staged),
    ensures
        step matches UploadStep::NextField(form) && form.root_path == staged.place.form.root_path
            && form.target_path == staged.place.form.target_path && form.relative_path
            == staged.place.form.relative_path && form.max_bytes == staged.place.form.max_bytes && (
        form.result matches Some(result) && result.path == staged.place.final_rel && result.size
            == staged.written && (staged.place.target@.names.len() > 0 ==> result.name@
            == staged.place.target@.names.last())),
{
}

/// What the refusals and failures of an upload say.
pub proof fn law_upload_failures_say_why(
    size: u64,
    limit: u64,
    link_reason: Seq<char>,
    rename_reason: Seq<char>,
    shown: Seq<char>,
    reason: Seq<char>,
)
    ensures
        too_large(size, limit).code == AppErrorCode::IoError,
        too_large(size, limit).message == "Upload exceeds the maximum allowed size"@,
        too_large(size, limit).too_large == Some(TooLarge { size, limit }),
        too_large(size, limit).detail == Some(
            "size="@ + decimal(size as nat) + " limit="@ + decimal(limit as nat),
        ),
        commit_failure(link_reason, rename_reason) == detailed_error(
            AppErrorCode::IoError,
            "Failed to commit upload"@,
            "hard_link_err="@ + link_reason + " rename_err="@ + rename_reason,
        ),
        phantom(shown, CommitMethod::HardLink, reason) == detailed_error(
            AppErrorCode::IoError,
            "Upload appeared to succeed but the file is missing"@,
            "final_abs="@ + shown + " commit_method="@ + "hard_link"@ + " err="@ + reason,
        ),
        phantom(shown, CommitMethod::Rename, reason) == detailed_error(
            AppErrorCode::IoError,
            "Upload appeared to succeed but the file is missing"@,
            "final_abs="@ + shown + " commit_method="@ + "rename"@ + " err="@ + reason,
        ),
{
}

/// Answers of the host are taken as they are.
pub proof fn law_chunks_are_taken_as_they_are(bytes: Vec<u8>, reason: String)
    ensures
        chunk_answer(Ok(Some(bytes))) == Ok::<Option<Seq<u8>>, Seq<char>>(Some(bytes@)),
        chunk_answer(Ok(None)) == Ok::<Option<Seq<u8>>, Seq<char>>(None),
        chunk_answer(Err(reason)) == Err::<Option<Seq<u8>>, Seq<char>>(reason@),
{
}

/// A field that cannot be read is named in the failure, and a taken name is told as such.
pub proof fn law_unreadable_field_is_named()
    ensures
        unreadable(TextField::RootPath) == "Failed to read root_path field"@,
        unreadable(TextField::TargetPath) == "Failed to read target_path field"@,
        unreadable(TextField::RelativePath) == "Failed to read relative_path field"@,
        name_taken() == plain_error(
            AppErrorCode::AlreadyExists,
            "A file with this name already exists"@,
        ),
{
}

} // verus!
