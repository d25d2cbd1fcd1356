//! Keeping resolved paths inside the workspace.
use vstd::prelude::*;
use crate::error::{invalid, os_failure, unit_result, AppCommandError, AppErrorView};
use super::path::{path_starts_with, starts_with, ComponentView, PathReading, ReadingView};
use super::path_laws::law_path_begins_with_another;

verus! {

/// The refusal of a path that leads out of the workspace once symlinks are resolved.
pub open spec fn escapes() -> AppErrorView {
    invalid("Resolved path escapes workspace root"@)
}

/// What resolving a path brought: the path without symlinks, or why there is none.
pub open spec fn resolution(r: Result<PathReading, String>) -> Result<ReadingView, Seq<char>> {
    match r {
        Ok(path) => Ok(path@),
        Err(reason) => Err(reason@),
    }
}

/// Whether a resolved target lies in the resolved root, and if not why.
pub open spec fn inside_verdict(
    root: Result<ReadingView, Seq<char>>,
    target: Result<ReadingView, Seq<char>>,
) -> Result<(), AppErrorView> {
    match (root, target) {
        (Err(reason), _) => Err(os_failure(reason)),
        (Ok(_), Err(reason)) => Err(os_failure(reason)),
        (Ok(r), Ok(t)) => if starts_with(t.components, r.components) {
            Ok(())
        } else {
            Err(escapes())
        },
    }
}

/// Checks that a resolved target lies in the resolved root.
pub fn ensure_inside_root(
    root: Result<PathReading, String>,
    target: Result<PathReading, String>,
) -> (r: Result<(), AppCommandError>)
    ensures
        unit_result(r) == inside_verdict(resolution(root), resolution(target)),
{
    let canonical_root = match root {
        Ok(path) => path,
        Err(reason) => {
            return Err(AppCommandError::io(reason.as_str()));
        },
    };
    let canonical_target = match target {
        Ok(path) => path,
        Err(reason) => {
            return Err(AppCommandError::io(reason.as_str()));
        },
    };
    if path_starts_with(&canonical_target, &canonical_root) {
        Ok(())
    } else {
        Err(AppCommandError::invalid_input("Resolved path escapes workspace root"))
    }
}

/// Whatever lies in the root is accepted, at whatever depth: a resolved target whose components
/// are those of the resolved root with any others behind them. Any other target is refused, and
/// what cannot be resolved is refused for the reason given.
pub proof fn law_whatever_lies_in_the_root_is_accepted(
    root: ReadingView,
    target: ReadingView,
    rest: Seq<ComponentView>,
    unresolved: Seq<char>,
    other: Result<ReadingView, Seq<char>>,
)
    ensures
        target.components == root.components + rest ==> inside_verdict(Ok(root), Ok(target)) == Ok::<
            (),
            AppErrorView,
        >(()),
        inside_verdict(Ok(root), Ok(root)) == Ok::<(), AppErrorView>(()),
        inside_verdict(Ok(root), Ok(target)) is Ok ==> target.components == root.components
            + target.components.skip(root.components.len() as int),
        inside_verdict(Ok(root), Ok(target)) is Err ==> inside_verdict(Ok(root), Ok(target)) == Err::<
            (),
            _,
        >(invalid("Resolved path escapes workspace root"@)),
        inside_verdict(Err(unresolved), other) == Err::<(), _>(os_failure(unresolved)),
        inside_verdict(Ok(root), Err(unresolved)) == Err::<(), _>(os_failure(unresolved)),
{
    law_path_begins_with_another(target.components, root.components, rest);
    law_path_begins_with_another(root.components, root.components, Seq::empty());
    assert(root.components =~= root.components + Seq::<ComponentView>::empty());
}

/// What the host resolves is taken as it is.
pub proof fn law_resolution_is_taken_as_it_is(path: PathReading, reason: String)
    ensures
        resolution(Ok(path)) == Ok::<ReadingView, Seq<char>>(path@),
        resolution(Err(reason)) == Err::<ReadingView, Seq<char>>(reason@),
{
}

} // verus!
