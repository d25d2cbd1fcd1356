//! What holds of a download from its beginning to its end.
//!
//! Every function of `download` says in its contract that the step it returns may follow the
//! step whose outcome it takes; the laws here hold of every row of such steps.
use vstd::prelude::*;
use super::confine::inside_verdict;
use super::download::{heads, resolved_step, DownloadKind, DownloadStep, DownloadTarget, Location};
use super::path::{starts_with, ReadingView};

verus! {

/// Whether `next` may come directly after `step` in a download.
pub open spec fn may_follow(step: DownloadStep, next: DownloadStep) -> bool {
    match step {
        DownloadStep::CheckRoot(kind, params) => match next {
            DownloadStep::Inspect(t) => t.location.root == params.root_path && t.location.rel
                == Some(params.path) && t.kind == kind && target_ok(t),
            DownloadStep::AcquireSlot(t) => t.location.root == params.root_path && t.location.rel
                is None && t.kind == kind && kind == DownloadKind::Directory && target_ok(t),
            _ => next is Fail,
        },
        DownloadStep::Inspect(t) => next is Fail || next == DownloadStep::Resolve(t),
        DownloadStep::Resolve(t) => next is Fail || next == match t.kind {
            DownloadKind::File => DownloadStep::Measure(t),
            DownloadKind::Directory => DownloadStep::AcquireSlot(t),
        },
        DownloadStep::Measure(t) => match next {
            DownloadStep::OpenFile(u, _) => u == t,
            _ => next is Fail,
        },
        DownloadStep::AcquireSlot(t) => next is Fail || next == DownloadStep::CreateArchive(t),
        DownloadStep::CreateArchive(t) => next is Fail || next == DownloadStep::BuildArchive(t),
        DownloadStep::BuildArchive(t) => match next {
            DownloadStep::OpenArchive(u, _) => u == t,
            _ => next is Fail,
        },
        DownloadStep::OpenFile(t, size) => match next {
            DownloadStep::Respond(head) => heads(head, t.kind, t.name@, size),
            _ => next is Fail,
        },
        DownloadStep::OpenArchive(t, size) => match next {
            DownloadStep::Respond(head) => heads(head, t.kind, t.name@, size),
            _ => next is Fail,
        },
        DownloadStep::Respond(_) => false,
        DownloadStep::Fail(_) => false,
    }
}

/// Whether the steps are a run of a download, or the beginning of one.
pub open spec fn is_run(steps: Seq<DownloadStep>) -> bool {
    &&& steps.len() > 0
    &&& steps[0] is CheckRoot
    &&& forall|i: int| 0 <= i < steps.len() - 1 ==> may_follow(#[trigger] steps[i], steps[i + 1])
}

/// What a step is about, once that is settled.
pub open spec fn target_of(step: DownloadStep) -> Option<DownloadTarget> {
    match step {
        DownloadStep::CheckRoot(_, _) => None,
        DownloadStep::Inspect(t) => Some(t),
        DownloadStep::Resolve(t) => Some(t),
        DownloadStep::Measure(t) => Some(t),
        DownloadStep::AcquireSlot(t) => Some(t),
        DownloadStep::CreateArchive(t) => Some(t),
        DownloadStep::BuildArchive(t) => Some(t),
        DownloadStep::OpenFile(t, _) => Some(t),
        DownloadStep::OpenArchive(t, _) => Some(t),
        DownloadStep::Respond(_) => None,
        DownloadStep::Fail(_) => None,
    }
}

/// Whether the target lies at or below the workspace folder, before symlinks are resolved.
pub open spec fn target_ok(t: DownloadTarget) -> bool {
    starts_with(t.path@.components, t.root@.components)
}

/// A download never changes its target, and the target lies at or below the workspace folder.
pub proof fn law_target_lies_at_or_below_root(step: DownloadStep, next: DownloadStep)
    requires
        may_follow(step, next),
        target_of(next) is Some,
    ensures
        step is CheckRoot ==> target_ok(target_of(next)->0),
        !(step is CheckRoot) ==> target_of(step) == target_of(next),
{
}

/// Whether the step looks into its target: it asks how long it is, packs it or opens it.
pub open spec fn looks_inside(step: DownloadStep) -> bool {
    ||| step is Measure
    ||| step is AcquireSlot
    ||| step is CreateArchive
    ||| step is BuildArchive
    ||| step is OpenFile
    ||| step is OpenArchive
}

/// The place that a location names, as far as resolving goes.
pub open spec fn located(location: Location) -> (Seq<char>, Option<Seq<char>>) {
    (
        location.root@,
        match location.rel {
            Some(rel) => Some(rel@),
            None => None,
        },
    )
}

/// Whether the steps are a run in which `resolve` says what a workspace folder, or a path below
/// it, is once symlinks are resolved.
pub open spec fn is_resolved_run(
    steps: Seq<DownloadStep>,
    resolve: spec_fn((Seq<char>, Option<Seq<char>>)) -> Result<ReadingView, Seq<char>>,
) -> bool {
    &&& is_run(steps)
    &&& forall|i: int|
        0 <= i < steps.len() - 1 ==> (#[trigger] steps[i] matches DownloadStep::Resolve(t)
            ==> resolved_step(
            t,
            resolve((t.location.root@, None)),
            resolve(located(t.location)),
            steps[i + 1],
        ))
}

/// Nothing is looked into unless it lies in the workspace once symlinks are resolved. The one
/// exception needs no look: the workspace folder itself, as a directory.
pub proof fn law_nothing_outside_the_workspace_is_sent(
    steps: Seq<DownloadStep>,
    resolve: spec_fn((Seq<char>, Option<Seq<char>>)) -> Result<ReadingView, Seq<char>>,
    at: int,
)
    requires
        is_resolved_run(steps, resolve),
        0 <= at < steps.len(),
        looks_inside(steps[at]),
    ensures
        ({
            let t = target_of(steps[at])->0;
            ||| t.kind == DownloadKind::Directory && t.location.rel is None
            ||| inside_verdict(
                resolve((t.location.root@, None)),
                resolve(located(t.location)),
            ) is Ok
        }),
    decreases at,
{
    assert(at > 0);
    let before = steps[at - 1];
    assert(may_follow(before, steps[at]));
    if looks_inside(before) {
        law_nothing_outside_the_workspace_is_sent(steps, resolve, at - 1);
    }
}

/// Every step of a download is about something at or below the workspace folder.
pub proof fn law_every_step_of_a_download_is_ok(steps: Seq<DownloadStep>, at: int)
    requires
        is_run(steps),
        0 <= at < steps.len(),
        target_of(steps[at]) is Some,
    ensures
        target_ok(target_of(steps[at])->0),
    decreases at,
{
    assert(at > 0);
    assert(may_follow(steps[at - 1], steps[at]));
    law_target_lies_at_or_below_root(steps[at - 1], steps[at]);
    if !(steps[at - 1] is CheckRoot) {
        law_every_step_of_a_download_is_ok(steps, at - 1);
    }
}

/// Whether the steps are a run in which `size_of` gives the length of a file, or of the archive
/// that a directory is packed into.
pub open spec fn is_sized_run(
    steps: Seq<DownloadStep>,
    size_of: spec_fn(DownloadTarget) -> u64,
) -> bool {
    &&& is_run(steps)
    &&& forall|i: int|
        0 <= i < steps.len() - 1 ==> match #[trigger] steps[i] {
            DownloadStep::Measure(t) => steps[i + 1] matches DownloadStep::OpenFile(_, size) ==> size
                == size_of(t),
            DownloadStep::BuildArchive(t) => steps[i + 1] matches DownloadStep::OpenArchive(_, size)
                ==> size == size_of(t),
            _ => true,
        }
}

/// A response is about what was opened just before it: its head tells the kind, the name and
/// the length of that.
pub proof fn law_response_tells_what_was_opened(
    steps: Seq<DownloadStep>,
    size_of: spec_fn(DownloadTarget) -> u64,
    at: int,
)
    requires
        is_sized_run(steps, size_of),
        0 <= at < steps.len(),
        steps[at] is Respond,
    ensures
        at > 0,
        steps[at - 1] is OpenFile || steps[at - 1] is OpenArchive,
        ({
            let t = target_of(steps[at - 1])->0;
            heads(steps[at]->Respond_0, t.kind, t.name@, size_of(t))
        }),
{
    assert(at > 0);
    assert(may_follow(steps[at - 1], steps[at]));
    assert(at > 1);
    assert(may_follow(steps[at - 2], steps[at - 1]));
}

} // verus!
