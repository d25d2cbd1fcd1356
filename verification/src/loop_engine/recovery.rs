//! Crash recovery at boot.
//!
//! No agent outlives the process that started it, so every iteration that is still queued or
//! running when a process starts has been interrupted. Recovery marks it so, which gives up
//! its lease; nothing else about the iteration changes, and it is never passed off as
//! succeeded. The issues that are running are handed back, so that work on them can start
//! again from a clean worktree.
use vstd::prelude::*;
use super::error::{LoopError, LoopErrorView};

verus! {

/// Where an iteration stands.
#[derive(Debug, Clone, Copy, PartialEq, Eq, Structural)]
pub enum IterationStatus {
    Queued,
    Running,
    Interrupted,
    Succeeded,
    /// Any other status, none of which is active.
    Other,
}

/// Where an issue stands.
#[derive(Debug, Clone, Copy, PartialEq, Eq, Structural)]
pub enum IssueStatus {
    Running,
    Paused,
    /// Any other status.
    Other,
}

/// An iteration of a loop issue, with its time stamps of type `T`.
#[derive(Debug, Clone, Copy)]
pub struct LoopIteration<T> {
    pub id: i32,
    pub issue_id: i32,
    pub status: IterationStatus,
    pub attempt: i32,
    pub ended_at: Option<T>,
}

/// A loop issue.
#[derive(Debug, Clone, Copy)]
pub struct LoopIssue {
    pub id: i32,
    pub status: IssueStatus,
    /// The folder of the issue's worktree, if it has one.
    pub worktree_folder_id: Option<i32>,
}

/// Whether an iteration of this status holds a lease.
pub open spec fn active(status: IterationStatus) -> bool {
    status == IterationStatus::Queued || status == IterationStatus::Running
}

/// The iteration after recovery at the time `now`.
pub open spec fn recovered<T>(it: LoopIteration<T>, now: T) -> LoopIteration<T> {
    if active(it.status) {
        LoopIteration { status: IterationStatus::Interrupted, ended_at: Some(now), ..it }
    } else {
        it
    }
}

/// The iterations after recovery.
pub open spec fn all_recovered<T>(its: Seq<LoopIteration<T>>, now: T) -> Seq<LoopIteration<T>> {
    its.map_values(|it: LoopIteration<T>| recovered(it, now))
}

/// The issues that are running, in order.
pub open spec fn running_of(issues: Seq<LoopIssue>) -> Seq<LoopIssue>
    decreases issues.len(),
{
    if issues.len() == 0 {
        Seq::empty()
    } else {
        let head = running_of(issues.drop_last());
        if issues.last().status == IssueStatus::Running {
            head.push(issues.last())
        } else {
            head
        }
    }
}

/// The ids of issues.
pub open spec fn ids_of(issues: Seq<LoopIssue>) -> Seq<i32> {
    issues.map_values(|issue: LoopIssue| issue.id)
}

/// A change to all iterations of certain statuses.
pub struct IterationUpdate<T> {
    /// The statuses of the iterations to change.
    pub where_status: Vec<IterationStatus>,
    /// Their new status.
    pub set_status: IterationStatus,
    /// When they ended.
    pub set_ended_at: T,
}

/// The iteration after a change.
pub open spec fn updated<T>(it: LoopIteration<T>, u: IterationUpdate<T>) -> LoopIteration<T> {
    if u.where_status@.contains(it.status) {
        LoopIteration { status: u.set_status, ended_at: Some(u.set_ended_at), ..it }
    } else {
        it
    }
}

/// Starts recovery at the time `now`, with a change to make before anything else: every active
/// iteration becomes interrupted. Its outcome goes to `leases_released`.
pub fn reconcile_on_boot<T>(now: T) -> (u: IterationUpdate<T>)
    ensures
        recovers(u, now),
        u.where_status@.no_duplicates(),
{
    let mut from: Vec<IterationStatus> = Vec::new();
    from.push(IterationStatus::Queued);
    from.push(IterationStatus::Running);
    assert(from@[0] == IterationStatus::Queued && from@[1] == IterationStatus::Running);
    IterationUpdate {
        where_status: from,
        set_status: IterationStatus::Interrupted,
        set_ended_at: now,
    }
}

/// Whether a change makes every active iteration interrupted at the time `now`, and no other.
pub open spec fn recovers<T>(u: IterationUpdate<T>, now: T) -> bool {
    &&& forall|s: IterationStatus| u.where_status@.contains(s) <==> active(s)
    &&& u.set_status == IterationStatus::Interrupted
    &&& u.set_ended_at == now
}

fn update_hits<T>(u: &IterationUpdate<T>, status: IterationStatus) -> (b: bool)
    ensures
        b == u.where_status@.contains(status),
{
    let mut i: usize = 0;
    while i < u.where_status.len()
        invariant
            i <= u.where_status.len(),
            forall|j: int| 0 <= j < i ==> u.where_status@[j] != status,
        decreases u.where_status.len() - i,
    {
        if u.where_status[i] == status {
            return true;
        }
        i += 1;
    }
    false
}

/// Applies a change to the iterations in memory.
pub fn apply_update<T: Copy>(its: &mut Vec<LoopIteration<T>>, u: &IterationUpdate<T>)
    ensures
        final(its)@ == old(its)@.map_values(|it: LoopIteration<T>| updated(it, *u)),
{
    let ghost before = its@;
    let mut i: usize = 0;
    while i < its.len()
        invariant
            i <= its.len(),
            its@.len() == before.len(),
            forall|j: int| i <= j < its@.len() ==> its@[j] == before[j],
            forall|j: int| 0 <= j < i ==> #[trigger] its@[j] == updated(before[j], *u),
        decreases its.len() - i,
    {
        let it = its[i];
        if update_hits(u, it.status) {
            its.set(
                i,
                LoopIteration {
                    id: it.id,
                    issue_id: it.issue_id,
                    status: u.set_status,
                    attempt: it.attempt,
                    ended_at: Some(u.set_ended_at),
                },
            );
        }
        i += 1;
    }
}

/// The issues whose worktrees are cleaned, and the one whose turn it is.
pub struct BootIssues {
    pub issues: Vec<LoopIssue>,
    pub at: usize,
}

/// How recovery goes on once the leases are released.
pub enum BootStep {
    /// Look up the issues that are running and hand them to `running_loaded`.
    LoadRunning,
    /// Clean the worktree of the issue at `at`, from `restore_worktree_clean` on, and go on with
    /// `worktree_cleaned`, however that ends.
    Clean(BootIssues),
    /// Start the work on these issues again.
    Done(Vec<i32>),
    /// Recovery has failed.
    Fail(LoopError),
}

/// Goes on after the leases were released. If the database failed, so does recovery.
pub fn leases_released(outcome: Result<(), String>) -> (step: BootStep)
    ensures
        match outcome {
            Ok(_) => step == BootStep::LoadRunning,
            Err(reason) => step matches BootStep::Fail(e) && e@ == LoopErrorView::Database(reason@),
        },
{
    match outcome {
        Ok(()) => BootStep::LoadRunning,
        Err(reason) => BootStep::Fail(LoopError::Database(reason)),
    }
}

/// The issues that are running, in order.
pub fn running_issues(issues: &Vec<LoopIssue>) -> (running: Vec<LoopIssue>)
    ensures
        running@ == running_of(issues@),
{
    let mut running: Vec<LoopIssue> = Vec::new();
    let mut i: usize = 0;
    while i < issues.len()
        invariant
            i <= issues.len(),
            running@ == running_of(issues@.take(i as int)),
        decreases issues.len() - i,
    {
        assert(issues@.take(i + 1).drop_last() == issues@.take(i as int));
        if issues[i].status == IssueStatus::Running {
            running.push(issues[i]);
        }
        i += 1;
    }
    assert(issues@.take(i as int) == issues@);
    running
}

fn issue_ids(issues: &Vec<LoopIssue>) -> (ids: Vec<i32>)
    ensures
        ids@ == ids_of(issues@),
{
    let mut ids: Vec<i32> = Vec::new();
    let mut i: usize = 0;
    while i < issues.len()
        invariant
            i <= issues.len(),
            ids@ == ids_of(issues@.take(i as int)),
        decreases issues.len() - i,
    {
        ids.push(issues[i].id);
        assert(ids@ =~= ids_of(issues@.take(i + 1)));
        i += 1;
    }
    assert(issues@.take(i as int) == issues@);
    ids
}

/// Whether the step cleans the issue at `at` next, or ends with all of the issues if none is
/// left from there on.
pub open spec fn cleans_from(step: BootStep, issues: Seq<LoopIssue>, at: int) -> bool {
    if at < issues.len() {
        step matches BootStep::Clean(list) && list.issues@ == issues && list.at == at
    } else {
        step matches BootStep::Done(ids) && ids@ == ids_of(issues)
    }
}

/// Goes on with the issues that were looked up. The worktree of each one that is running is
/// cleaned, in order.
pub fn running_loaded(found: Result<Vec<LoopIssue>, String>) -> (step: BootStep)
    ensures
        match found {
            Ok(issues) => cleans_from(step, running_of(issues@), 0),
            Err(reason) => step matches BootStep::Fail(e) && e@ == LoopErrorView::Database(reason@),
        },
{
    match found {
        Ok(all) => {
            let issues = running_issues(&all);
            if issues.len() > 0 {
                BootStep::Clean(BootIssues { issues, at: 0 })
            } else {
                BootStep::Done(issue_ids(&issues))
            }
        },
        Err(reason) => BootStep::Fail(LoopError::Database(reason)),
    }
}

/// Goes on after a worktree was cleaned, or could not be.
pub fn worktree_cleaned(list: BootIssues) -> (step: BootStep)
    ensures
        cleans_from(step, list.issues@, list.at + 1),
{
    if list.at < list.issues.len() && list.at + 1 < list.issues.len() {
        BootStep::Clean(BootIssues { issues: list.issues, at: list.at + 1 })
    } else {
        BootStep::Done(issue_ids(&list.issues))
    }
}

/// How cleaning an issue's worktree goes on.
pub enum WorktreeStep {
    /// There is nothing to clean.
    Skip,
    /// Look up the folder and hand it to `folder_loaded`.
    LoadFolder(i32),
    /// See whether this path exists and hand the answer to `path_checked`.
    CheckPath(String),
    /// Discard what is not committed in the worktree at this path.
    Reset(String),
}

/// Starts cleaning the worktree of an issue; an issue without one is left alone.
pub fn restore_worktree_clean(issue: &LoopIssue) -> (step: WorktreeStep)
    ensures
        match issue.worktree_folder_id {
            Some(id) => step == WorktreeStep::LoadFolder(id),
            None => step == WorktreeStep::Skip,
        },
{
    match issue.worktree_folder_id {
        Some(id) => WorktreeStep::LoadFolder(id),
        None => WorktreeStep::Skip,
    }
}

/// Goes on after the lookup of the folder. A folder that is not there, or cannot be looked
/// up, stops the cleaning and nothing else.
pub fn folder_loaded(found: Result<Option<String>, String>) -> (step: WorktreeStep)
    ensures
        match found {
            Ok(Some(path)) => step == WorktreeStep::CheckPath(path),
            _ => step == WorktreeStep::Skip,
        },
{
    match found {
        Ok(Some(path)) => WorktreeStep::CheckPath(path),
        _ => WorktreeStep::Skip,
    }
}

/// Goes on once it is known whether the worktree is on disk.
pub fn path_checked(path: String, on_disk: bool) -> (step: WorktreeStep)
    ensures
        step == if on_disk {
            WorktreeStep::Reset(path)
        } else {
            WorktreeStep::Skip
        },
{
    if on_disk {
        WorktreeStep::Reset(path)
    } else {
        WorktreeStep::Skip
    }
}

/// The change that recovery starts with, applied to all iterations, is recovery.
pub proof fn law_boot_change_recovers_every_iteration<T>(
    its: Seq<LoopIteration<T>>,
    u: IterationUpdate<T>,
    now: T,
)
    requires
        recovers(u, now),
    ensures
        its.map_values(|it: LoopIteration<T>| updated(it, u)) == all_recovered(its, now),
{
    assert(its.map_values(|it: LoopIteration<T>| updated(it, u)) =~= all_recovered(its, now));
}

/// After recovery no iteration is active, whatever the state of its issue: every lease can be
/// taken again.
pub proof fn law_recovery_releases_every_lease<T>(its: Seq<LoopIteration<T>>, now: T)
    ensures
        forall|i: int|
            0 <= i < its.len() ==> !active(#[trigger] all_recovered(its, now)[i].status),
{
}

/// Recovery is only a change of status: the number of attempts stays, what had ended stays as
/// it was, an interrupted iteration carries the time of recovery, and none becomes succeeded.
pub proof fn law_recovery_is_pure_interruption<T>(its: Seq<LoopIteration<T>>, now: T, i: int)
    requires
        0 <= i < its.len(),
    ensures
        all_recovered(its, now).len() == its.len(),
        all_recovered(its, now)[i].id == its[i].id,
        all_recovered(its, now)[i].issue_id == its[i].issue_id,
        all_recovered(its, now)[i].attempt == its[i].attempt,
        !active(its[i].status) ==> all_recovered(its, now)[i] == its[i],
        active(its[i].status) ==> all_recovered(its, now)[i].status == IterationStatus::Interrupted
            && all_recovered(its, now)[i].ended_at == Some(now),
        all_recovered(its, now)[i].status == IterationStatus::Succeeded <==> its[i].status
            == IterationStatus::Succeeded,
{
}

/// Recovering a second time, at whatever time, changes nothing.
pub proof fn law_recovery_is_idempotent<T>(its: Seq<LoopIteration<T>>, now: T, later: T)
    ensures
        all_recovered(all_recovered(its, now), later) == all_recovered(its, now),
{
    assert(all_recovered(all_recovered(its, now), later) =~= all_recovered(its, now));
}

/// Whether the steps are what recovery does about the issues that were found, or the beginning
/// of it: each step follows from the one before it, as `running_loaded` and `worktree_cleaned`
/// say.
pub open spec fn cleans_in_turn(steps: Seq<BootStep>, found: Seq<LoopIssue>) -> bool {
    &&& steps.len() > 0
    &&& cleans_from(steps[0], running_of(found), 0)
    &&& forall|i: int|
        0 <= i < steps.len() - 1 ==> (#[trigger] steps[i] matches BootStep::Clean(list)
            && cleans_from(steps[i + 1], list.issues@, list.at + 1))
}

/// Recovery cleans the worktree of every running issue once, in order, and then gives back
/// all of these issues, whatever came of the cleaning.
pub proof fn law_every_running_issue_is_cleaned_once(
    steps: Seq<BootStep>,
    found: Seq<LoopIssue>,
    at: int,
)
    requires
        cleans_in_turn(steps, found),
        0 <= at < steps.len(),
    ensures
        at <= running_of(found).len(),
        cleans_from(steps[at], running_of(found), at),
    decreases at,
{
    if at > 0 {
        law_every_running_issue_is_cleaned_once(steps, found, at - 1);
        assert(steps[at - 1] is Clean);
    }
}

/// The issues to start again are those that are running: every one of them, no other.
pub proof fn law_restart_list_holds_running_issues(issues: Seq<LoopIssue>, id: i32)
    ensures
        ids_of(running_of(issues)).contains(id) <==> exists|i: int|
            0 <= i < issues.len() && #[trigger] issues[i].id == id && issues[i].status
                == IssueStatus::Running,
    decreases issues.len(),
{
    if issues.len() > 0 {
        let head = issues.drop_last();
        let last = issues.last();
        law_restart_list_holds_running_issues(head, id);
        let ids = ids_of(running_of(issues));
        let head_ids = ids_of(running_of(head));
        if last.status == IssueStatus::Running {
            assert(ids =~= head_ids.push(last.id));
        } else {
            assert(ids == head_ids);
        }
        if ids.contains(id) {
            let k = choose|k: int| 0 <= k < ids.len() && ids[k] == id;
            if k < head_ids.len() {
                assert(head_ids[k] == id);
                let i = choose|i: int|
                    0 <= i < head.len() && #[trigger] head[i].id == id && head[i].status
                        == IssueStatus::Running;
                assert(issues[i].id == id);
            } else {
                assert(issues[issues.len() - 1].id == id);
            }
        }
        if exists|i: int|
            0 <= i < issues.len() && #[trigger] issues[i].id == id && issues[i].status
                == IssueStatus::Running {
            let i = choose|i: int|
                0 <= i < issues.len() && #[trigger] issues[i].id == id && issues[i].status
                    == IssueStatus::Running;
            if i < head.len() {
                assert(head[i].id == id);
                let k = choose|k: int| 0 <= k < head_ids.len() && head_ids[k] == id;
                assert(ids[k] == id);
            } else {
                assert(ids[ids.len() - 1] == id);
            }
        }
    }
}

/// The running issues are those of the issues found whose status is running, in their order,
/// each as often as it was found.
pub proof fn law_running_issues_are_filtered(issues: Seq<LoopIssue>)
    ensures
        running_of(issues) == issues.filter(|issue: LoopIssue| issue.status == IssueStatus::Running),
    decreases issues.len(),
{
    reveal(Seq::filter);
    if issues.len() > 0 {
        law_running_issues_are_filtered(issues.drop_last());
    } else {
        assert(running_of(issues) =~= issues.filter(
            |issue: LoopIssue| issue.status == IssueStatus::Running,
        ));
    }
}

/// The running issues of two lists are those of the one followed by those of the other; one
/// issue alone is running exactly if its status says so.
pub proof fn law_running_issues_of_two_lists(a: Seq<LoopIssue>, b: Seq<LoopIssue>, one: LoopIssue)
    ensures
        running_of(a + b) == running_of(a) + running_of(b),
        running_of(a).len() <= a.len(),
        running_of(seq![one]) == if one.status == IssueStatus::Running {
            seq![one]
        } else {
            Seq::empty()
        },
    decreases b.len(),
{
    assert(seq![one].drop_last() =~= Seq::empty());
    reveal_with_fuel(running_of, 2);
    assert(running_of(seq![one]) =~= if one.status == IssueStatus::Running {
        seq![one]
    } else {
        Seq::empty()
    });
    law_running_issues_are_fewer(a);
    if b.len() == 0 {
        assert(a + b =~= a);
        assert(running_of(a) + running_of(b) =~= running_of(a));
    } else {
        law_running_issues_of_two_lists(a, b.drop_last(), one);
        assert((a + b).drop_last() =~= a + b.drop_last());
        assert((a + b).last() == b.last());
        assert(running_of(a + b) =~= running_of(a) + running_of(b));
    }
}

/// There are as many running issues as issues at most, and all of the issues are running
/// exactly if there are as many.
pub proof fn law_running_issues_are_fewer(issues: Seq<LoopIssue>)
    ensures
        running_of(issues).len() <= issues.len(),
        running_of(issues).len() == issues.len() <==> forall|i: int|
            0 <= i < issues.len() ==> (#[trigger] issues[i]).status == IssueStatus::Running,
        forall|i: int|
            0 <= i < running_of(issues).len() ==> (#[trigger] running_of(issues)[i]).status
                == IssueStatus::Running,
    decreases issues.len(),
{
    if issues.len() > 0 {
        let head = issues.drop_last();
        law_running_issues_are_fewer(head);
        if running_of(issues).len() == issues.len() {
            assert forall|i: int| 0 <= i < issues.len() implies (#[trigger] issues[i]).status
                == IssueStatus::Running by {
                if i < head.len() {
                    assert(head[i] == issues[i]);
                }
            }
        }
        if forall|i: int|
            0 <= i < issues.len() ==> (#[trigger] issues[i]).status == IssueStatus::Running {
            assert forall|i: int| 0 <= i < head.len() implies (#[trigger] head[i]).status
                == IssueStatus::Running by {
                assert(head[i] == issues[i]);
            }
            assert(issues[issues.len() - 1].status == IssueStatus::Running);
        }
    }
}

/// The restart list names each running issue once: where no two of the issues found have the
/// same id, no id stands in it twice.
pub proof fn law_restart_list_names_each_issue_once(issues: Seq<LoopIssue>)
    requires
        forall|i: int, j: int|
            0 <= i < j < issues.len() ==> (#[trigger] issues[i]).id != (#[trigger] issues[j]).id,
    ensures
        ids_of(running_of(issues)).no_duplicates(),
        ids_of(running_of(issues)).len() == issues.filter(
            |issue: LoopIssue| issue.status == IssueStatus::Running,
        ).len(),
    decreases issues.len(),
{
    law_running_issues_are_filtered(issues);
    if issues.len() > 0 {
        let head = issues.drop_last();
        let last = issues.last();
        assert forall|i: int, j: int| 0 <= i < j < head.len() implies (#[trigger] head[i]).id != (
        #[trigger] head[j]).id by {
            assert(issues[i].id != issues[j].id);
        }
        law_restart_list_names_each_issue_once(head);
        let ids = ids_of(running_of(issues));
        let head_ids = ids_of(running_of(head));
        if last.status == IssueStatus::Running {
            assert(ids =~= head_ids.push(last.id));
            law_restart_list_holds_running_issues(head, last.id);
            if head_ids.contains(last.id) {
                let i = choose|i: int|
                    0 <= i < head.len() && #[trigger] head[i].id == last.id && head[i].status
                        == IssueStatus::Running;
                assert(issues[i].id != issues[issues.len() - 1].id);
            }
            assert forall|i: int, j: int|
                0 <= i < ids.len() && 0 <= j < ids.len() && i != j implies ids[i] != ids[j] by {
                if i < head_ids.len() && j < head_ids.len() {
                    assert(head_ids[i] != head_ids[j]);
                } else if i < head_ids.len() {
                    assert(head_ids[i] == ids[i]);
                    assert(head_ids.contains(head_ids[i]));
                } else {
                    assert(head_ids[j] == ids[j]);
                    assert(head_ids.contains(head_ids[j]));
                }
            }
        } else {
            assert(ids == head_ids);
        }
    } else {
        assert(ids_of(running_of(issues)) =~= Seq::empty());
    }
}

/// The ids of issues stand in the order of the issues, one for each.
pub proof fn law_ids_follow_the_issues(issues: Seq<LoopIssue>)
    ensures
        ids_of(issues).len() == issues.len(),
        forall|i: int| 0 <= i < issues.len() ==> #[trigger] ids_of(issues)[i] == issues[i].id,
{
}

/// A step of recovery cleans the issues it is about one after the other, and comes to an end
/// with the ids of all of them.
pub proof fn law_cleaning_goes_on_until_all_are_done(
    step: BootStep,
    issues: Seq<LoopIssue>,
    at: int,
)
    requires
        0 <= at,
        cleans_from(step, issues, at),
    ensures
        step is Clean <==> at < issues.len(),
        step is Done <==> at >= issues.len(),
        step matches BootStep::Clean(list) ==> list.at == at && list.issues@ == issues,
        step matches BootStep::Done(ids) ==> ids@.len() == issues.len() && forall|i: int|
            0 <= i < ids@.len() ==> #[trigger] ids@[i] == issues[i].id,
{
}

/// Which iterations recovery interrupts, status by status: those that are queued or running,
/// and no others; a change by recovery is the same for an iteration as recovery itself.
pub proof fn law_recovery_by_status<T>(it: LoopIteration<T>, u: IterationUpdate<T>, now: T)
    ensures
        active(it.status) <==> it.status == IterationStatus::Queued || it.status
            == IterationStatus::Running,
        it.status == IterationStatus::Queued || it.status == IterationStatus::Running ==> recovered(
            it,
            now,
        ).status == IterationStatus::Interrupted && recovered(it, now).ended_at == Some(now),
        it.status == IterationStatus::Interrupted || it.status == IterationStatus::Succeeded
            || it.status == IterationStatus::Other ==> recovered(it, now) == it,
        recovered(it, now).id == it.id,
        recovered(it, now).issue_id == it.issue_id,
        recovered(it, now).attempt == it.attempt,
        recovers(u, now) ==> updated(it, u) == recovered(it, now),
        recovers(u, now) ==> u.where_status@.contains(IterationStatus::Queued)
            && u.where_status@.contains(IterationStatus::Running) && !u.where_status@.contains(
            IterationStatus::Succeeded,
        ),
{
    assert(active(IterationStatus::Queued) && active(IterationStatus::Running) && !active(
        IterationStatus::Succeeded,
    ));
}

/// A change of iterations reaches those of the given statuses, whatever else is known of them,
/// and of these it changes the status and the end and nothing else.
pub proof fn law_change_reaches_the_given_statuses<T>(it: LoopIteration<T>, u: IterationUpdate<T>)
    ensures
        u.where_status@.contains(it.status) ==> updated(it, u).status == u.set_status && updated(
            it,
            u,
        ).ended_at == Some(u.set_ended_at),
        !u.where_status@.contains(it.status) ==> updated(it, u) == it,
        updated(it, u).id == it.id,
        updated(it, u).issue_id == it.issue_id,
        updated(it, u).attempt == it.attempt,
{
}

} // verus!
