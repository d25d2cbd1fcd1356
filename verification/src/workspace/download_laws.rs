//! What a request to send something leads to, told by the names in it and by what is found.
use vstd::prelude::*;
use vstd::utf8::encode_utf8;
use crate::error::{plain_error, AppErrorCode, AppErrorView};
use crate::number::decimal;
use super::confine::law_whatever_lies_in_the_root_is_accepted;
use super::download::{download_fails, heads, request_step, resolved_step, sent_name, state_refusal, DownloadKind, DownloadStep, DownloadTarget, DownloadWorkspaceParams, EntryState, ResponseHead};
use super::headers::attachment_text;
use super::path::{joined, ComponentView, ReadingView};
use super::path_laws::{law_first_bad_component_decides, law_last_component_names_the_path, law_names_are_joined_to_the_root, law_relative_paths_are_accepted};

verus! {

/// A request for names below the root leads to what stands there, under the last of the names;
/// a directory gets `.zip` behind it.
pub proof fn law_names_below_the_root_are_looked_at(
    kind: DownloadKind,
    params: DownloadWorkspaceParams,
    root: ReadingView,
    names: Seq<Seq<char>>,
    step: DownloadStep,
)
    requires
        names.len() > 0,
        kind == DownloadKind::Directory ==> params.path@.len() > 0,
        request_step(
            kind,
            params,
            root,
            (ReadingView {
                is_absolute: false,
                components: names.map_values(|n: Seq<char>| ComponentView::Normal(n)),
            }),
            step,
        ),
    ensures
        step matches DownloadStep::Inspect(t) && {
            &&& t.kind == kind
            &&& t.location.root == params.root_path
            &&& t.location.rel == Some(params.path)
            &&& t.root@ == root
            &&& t.path@.is_absolute == root.is_absolute
            &&& t.path@.components == root.components + names.map_values(
                |n: Seq<char>| ComponentView::Normal(n),
            )
            &&& kind == DownloadKind::File ==> t.name@ == names.last()
            &&& kind == DownloadKind::Directory ==> t.name@ == names.last() + seq![
                '.',
                'z',
                'i',
                'p',
            ]
        },
{
    let normal = |n: Seq<char>| ComponentView::Normal(n);
    let below = names.map_values(normal);
    law_names_are_joined_to_the_root(root, names);
    let whole = root.components + below;
    assert(whole.last() == ComponentView::Normal(names.last()));
    assert(whole.drop_last().push(whole.last()) =~= whole);
    law_last_component_names_the_path(root.is_absolute, whole.drop_last(), whole.last());
    reveal_strlit(".zip");
    assert(".zip"@ =~= seq!['.', 'z', 'i', 'p']);
}

/// An empty path asks for the whole workspace where a directory is asked for: it is packed
/// without another look, under the name of the workspace folder, or as `workspace.zip` where
/// that has none.
pub proof fn law_empty_path_packs_the_workspace(
    params: DownloadWorkspaceParams,
    root: ReadingView,
    rel: ReadingView,
    init: Seq<ComponentView>,
    name: Seq<char>,
    step: DownloadStep,
)
    requires
        params.path@.len() == 0,
        request_step(DownloadKind::Directory, params, root, rel, step),
    ensures
        step matches DownloadStep::AcquireSlot(t) && {
            &&& t.kind == DownloadKind::Directory
            &&& t.location.root == params.root_path
            &&& t.location.rel is None
            &&& t.root@ == root
            &&& t.path@ == root
            &&& root.components == init.push(ComponentView::Normal(name)) ==> t.name@ == name
                + seq!['.', 'z', 'i', 'p']
            &&& root.components.len() == 0 || !(root.components.last() is Normal) ==> t.name@
                == seq!['w', 'o', 'r', 'k', 's', 'p', 'a', 'c', 'e', '.', 'z', 'i', 'p']
        },
{
    reveal_strlit(".zip");
    reveal_strlit("workspace");
    assert(".zip"@ =~= seq!['.', 'z', 'i', 'p']);
    assert("workspace"@ + ".zip"@ =~= seq![
        'w',
        'o',
        'r',
        'k',
        's',
        'p',
        'a',
        'c',
        'e',
        '.',
        'z',
        'i',
        'p',
    ]);
}

/// A path that does not lie below the root is refused before anything is looked at, for the
/// reason that its first bad component gives.
pub proof fn law_path_outside_is_refused(
    kind: DownloadKind,
    params: DownloadWorkspaceParams,
    root: ReadingView,
    rel: ReadingView,
    k: int,
    step: DownloadStep,
)
    requires
        kind == DownloadKind::Directory ==> params.path@.len() > 0,
        request_step(kind, params, root, rel, step),
    ensures
        rel.is_absolute ==> (step matches DownloadStep::Fail(e) && e@ == plain_error(
            AppErrorCode::InvalidInput,
            "Path must be relative"@,
        )),
        !rel.is_absolute && 0 <= k < rel.components.len() && rel.components[k] is ParentDir && (
        forall|i: int|
            0 <= i < k ==> (#[trigger] rel.components[i] is Normal || rel.components[i] is CurDir))
            ==> (step matches DownloadStep::Fail(e) && e@ == plain_error(
                AppErrorCode::InvalidInput,
                "Path cannot contain '..'"@,
            )),
        !rel.is_absolute && 0 <= k < rel.components.len() && (rel.components[k] is RootDir
            || rel.components[k] is Prefix) && (forall|i: int|
            0 <= i < k ==> (#[trigger] rel.components[i] is Normal || rel.components[i] is CurDir))
            ==> (step matches DownloadStep::Fail(e) && e@ == plain_error(
                AppErrorCode::InvalidInput,
                "Invalid path component"@,
            )),
{
    law_first_bad_component_decides(rel, k);
}

/// What stands at the path decides whether it is sent: a file as a file, a directory as a
/// directory. What is not there is missing, and what is something else is not acceptable.
pub proof fn law_state_decides(kind: DownloadKind, state: EntryState)
    ensures
        state_refusal(kind, state) is None <==> (kind == DownloadKind::File && state
            == EntryState::File) || (kind == DownloadKind::Directory && state
            == EntryState::Directory),
        state_refusal(kind, state) matches Some(e) ==> {
            &&& state == EntryState::Missing <==> e.code == AppErrorCode::NotFound
            &&& state != EntryState::Missing <==> e.code == AppErrorCode::InvalidInput
            &&& e.detail is None
            &&& e.too_large is None
            &&& e.message == match (kind, state) {
                (DownloadKind::File, EntryState::Missing) => "File does not exist"@,
                (DownloadKind::File, _) => "Path is not a file"@,
                (DownloadKind::Directory, EntryState::Missing) => "Directory does not exist"@,
                (DownloadKind::Directory, _) => "Path is not a directory"@,
            }
        },
{
}

/// Whatever lies in the workspace is sent, at whatever depth: where the root and the path both
/// resolve, and the resolved path begins with the components of the resolved root, a file is
/// measured next and a directory gets a slot to be packed in.
pub proof fn law_whatever_lies_in_the_workspace_is_sent(
    target: DownloadTarget,
    root: ReadingView,
    path: ReadingView,
    rest: Seq<ComponentView>,
    step: DownloadStep,
)
    requires
        path.components == root.components + rest,
        resolved_step(target, Ok(root), Ok(path), step),
    ensures
        target.kind == DownloadKind::File ==> step == DownloadStep::Measure(target),
        target.kind == DownloadKind::Directory ==> step == DownloadStep::AcquireSlot(target),
        !(step is Fail),
{
    law_whatever_lies_in_the_root_is_accepted(root, path, rest, Seq::empty(), Ok(root));
}

/// What does not lie in the workspace once it is resolved, or cannot be resolved, is not sent.
pub proof fn law_nothing_else_is_sent(
    target: DownloadTarget,
    root: Result<ReadingView, Seq<char>>,
    path: Result<ReadingView, Seq<char>>,
    step: DownloadStep,
)
    requires
        resolved_step(target, root, path, step),
    ensures
        match (root, path) {
            (Ok(r), Ok(p)) => if p.components.len() >= r.components.len() && p.components
                == r.components + p.components.skip(r.components.len() as int) {
                !(step is Fail)
            } else {
                step matches DownloadStep::Fail(e) && e@ == plain_error(
                    AppErrorCode::InvalidInput,
                    "Resolved path escapes workspace root"@,
                )
            },
            (Err(reason), _) => step matches DownloadStep::Fail(e) && e@ == plain_error(
                AppErrorCode::Os,
                reason,
            ),
            (Ok(_), Err(reason)) => step matches DownloadStep::Fail(e) && e@ == plain_error(
                AppErrorCode::Os,
                reason,
            ),
        },
{
    if let (Ok(r), Ok(p)) = (root, path) {
        let rest = p.components.skip(r.components.len() as int);
        law_whatever_lies_in_the_root_is_accepted(r, p, rest, Seq::empty(), Ok(r));
    }
}

/// The head of a response tells a file from an archive, and says the length and the name.
pub proof fn law_head_tells_what_is_sent(
    head: ResponseHead,
    kind: DownloadKind,
    name: Seq<char>,
    size: u64,
)
    requires
        heads(head, kind, name, size),
    ensures
        kind == DownloadKind::File ==> head.content_type@ == "application/octet-stream"@,
        kind == DownloadKind::Directory ==> head.content_type@ == "application/zip"@,
        head.content_length matches Some(bytes) && bytes@ == encode_utf8(decimal(size as nat)),
        head.content_disposition matches Some(bytes) && bytes@ == encode_utf8(
            attachment_text(name),
        ),
{
}

/// A path whose last component is no name is sent under a name that is always the same.
pub proof fn law_nameless_path_gets_a_name(path: ReadingView)
    requires
        path.components.len() == 0 || !(path.components.last() is Normal),
    ensures
        sent_name(DownloadKind::File, path) == "download"@,
        sent_name(DownloadKind::Directory, path) == "folder"@ + ".zip"@,
{
}

/// Any path below the root leads to what stands there, and nothing else is asked of it; it is
/// sent under the last name of the joined path, if that ends with one.
pub proof fn law_accepted_path_is_looked_at(
    kind: DownloadKind,
    params: DownloadWorkspaceParams,
    root: ReadingView,
    rel: ReadingView,
    init: Seq<ComponentView>,
    name: Seq<char>,
    step: DownloadStep,
)
    requires
        kind == DownloadKind::Directory ==> params.path@.len() > 0,
        !rel.is_absolute,
        forall|i: int|
            0 <= i < rel.components.len() ==> (#[trigger] rel.components[i] is Normal
                || rel.components[i] is CurDir),
        request_step(kind, params, root, rel, step),
    ensures
        step matches DownloadStep::Inspect(t) && {
            &&& t.kind == kind
            &&& t.location.root == params.root_path
            &&& t.location.rel == Some(params.path)
            &&& t.root@ == root
            &&& t.path@ == joined(root, rel)
            &&& joined(root, rel).components == init.push(ComponentView::Normal(name)) ==> t.name@
                == if kind == DownloadKind::File {
                name
            } else {
                name + seq!['.', 'z', 'i', 'p']
            }
            &&& joined(root, rel).components.len() == 0 || !(joined(
                root,
                rel,
            ).components.last() is Normal) ==> t.name@ == if kind == DownloadKind::File {
                "download"@
            } else {
                "folder"@ + seq!['.', 'z', 'i', 'p']
            }
        },
{
    law_relative_paths_are_accepted(rel);
    law_last_component_names_the_path(root.is_absolute, init, ComponentView::Normal(name));
    reveal_strlit(".zip");
    assert(".zip"@ =~= seq!['.', 'z', 'i', 'p']);
}

/// A failure says exactly what it is said to say.
pub proof fn law_failed_download_says_why(step: DownloadStep, e: AppErrorView)
    ensures
        download_fails(step, e) <==> step is Fail && step->Fail_0@ == e,
{
}

} // verus!
