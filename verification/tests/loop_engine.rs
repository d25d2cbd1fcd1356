use codeg::loop_engine::config_resolver::{config_parsed, effective_config, space_loaded, ConfigStep};
use codeg::loop_engine::error::LoopError;
use codeg::loop_engine::recovery::{
    apply_update, folder_loaded, leases_released, path_checked, reconcile_on_boot,
    restore_worktree_clean, running_loaded, worktree_cleaned, BootStep, IssueStatus,
    IterationStatus, LoopIssue, LoopIteration, WorktreeStep,
};

fn iteration(id: i32, issue_id: i32, status: IterationStatus, attempt: i32) -> LoopIteration<u64> {
    LoopIteration { id, issue_id, status, attempt, ended_at: None }
}

fn issue(id: i32, status: IssueStatus) -> LoopIssue {
    LoopIssue { id, status, worktree_folder_id: None }
}

/// Recovers the given tables at the given time and returns the issues to start again, with
/// the issues whose worktrees were cleaned on the way.
fn recover(its: &mut Vec<LoopIteration<u64>>, issues: &[LoopIssue], now: u64) -> (Vec<i32>, Vec<i32>) {
    apply_update(its, &reconcile_on_boot(now));
    assert!(matches!(leases_released(Ok(())), BootStep::LoadRunning));
    let mut cleaned = Vec::new();
    let mut step = running_loaded(Ok(issues.to_vec()));
    loop {
        step = match step {
            BootStep::Clean(list) => {
                cleaned.push(list.issues[list.at].id);
                worktree_cleaned(list)
            }
            BootStep::Done(ids) => return (ids, cleaned),
            BootStep::LoadRunning => panic!("looks up the issues once"),
            BootStep::Fail(e) => panic!("{e:?}"),
        };
    }
}

#[test]
fn interrupts_active_iterations_without_bumping_attempt() {
    let mut its = vec![
        iteration(1, 9, IterationStatus::Queued, 0),
        iteration(2, 9, IterationStatus::Running, 3),
    ];
    let (restart, _) = recover(&mut its, &[issue(9, IssueStatus::Running)], 77);
    assert_eq!(restart, vec![9], "the running issue is queued for restart");
    assert_eq!(its[0].status, IterationStatus::Interrupted);
    assert_eq!(its[1].status, IterationStatus::Interrupted);
    assert_eq!(its[0].ended_at, Some(77), "abandonment stamped");
    assert_eq!(its[1].ended_at, Some(77), "abandonment stamped");
    assert_eq!(its[1].attempt, 3, "pure interruption never bumps attempt");
}

#[test]
fn releases_lease_so_redispatch_can_reclaim() {
    let leased = |its: &Vec<LoopIteration<u64>>| {
        its.iter().any(|it| {
            it.issue_id == 9
                && matches!(it.status, IterationStatus::Queued | IterationStatus::Running)
        })
    };
    let mut its = vec![iteration(1, 9, IterationStatus::Running, 0)];
    assert!(leased(&its), "the lease is held before recovery");
    recover(&mut its, &[issue(9, IssueStatus::Running)], 1);
    assert!(!leased(&its), "interruption released the dispatch lease");
}

#[test]
fn restart_list_holds_only_running_issues_but_all_leases_release() {
    let mut its = vec![
        iteration(1, 4, IterationStatus::Running, 0),
        iteration(2, 5, IterationStatus::Running, 0),
    ];
    let issues = [
        issue(4, IssueStatus::Running),
        issue(5, IssueStatus::Paused),
        issue(6, IssueStatus::Other),
        issue(7, IssueStatus::Running),
    ];
    let (restart, cleaned) = recover(&mut its, &issues, 1);
    assert_eq!(restart, vec![4, 7], "only running issues restart");
    assert_eq!(cleaned, vec![4, 7]);
    assert_eq!(its[0].status, IterationStatus::Interrupted);
    assert_eq!(its[1].status, IterationStatus::Interrupted);
}

#[test]
fn idempotent_and_clean_boot_is_noop() {
    let mut its = vec![
        LoopIteration {
            id: 1,
            issue_id: 9,
            status: IterationStatus::Succeeded,
            attempt: 2,
            ended_at: Some(5),
        },
        iteration(2, 9, IterationStatus::Other, 1),
        iteration(3, 9, IterationStatus::Running, 1),
    ];
    let issues = [issue(9, IssueStatus::Running)];
    assert_eq!(recover(&mut its, &issues, 10).0, vec![9]);
    assert_eq!(recover(&mut its, &issues, 20).0, vec![9]);
    assert_eq!(its[0].status, IterationStatus::Succeeded);
    assert_eq!(its[0].ended_at, Some(5));
    assert_eq!(its[1].status, IterationStatus::Other);
    assert_eq!(its[1].ended_at, None);
    assert_eq!(its[2].status, IterationStatus::Interrupted);
    assert_eq!(its[2].ended_at, Some(10));
}

#[test]
fn no_running_issue_means_nothing_to_start() {
    let mut its: Vec<LoopIteration<u64>> = Vec::new();
    assert_eq!(recover(&mut its, &[issue(1, IssueStatus::Paused)], 3), (vec![], vec![]));
    assert_eq!(recover(&mut its, &[], 3), (vec![], vec![]));
}

#[test]
fn a_failing_database_fails_recovery() {
    match leases_released(Err("locked".to_string())) {
        BootStep::Fail(LoopError::Database(reason)) => assert_eq!(reason, "locked"),
        _ => panic!("the failure is passed on"),
    }
    match running_loaded(Err("gone".to_string())) {
        BootStep::Fail(LoopError::Database(reason)) => assert_eq!(reason, "gone"),
        _ => panic!("the failure is passed on"),
    }
}

#[test]
fn only_a_worktree_on_disk_is_reset() {
    assert!(matches!(restore_worktree_clean(&issue(1, IssueStatus::Running)), WorktreeStep::Skip));
    let with_tree = LoopIssue { id: 1, status: IssueStatus::Running, worktree_folder_id: Some(8) };
    assert!(matches!(restore_worktree_clean(&with_tree), WorktreeStep::LoadFolder(8)));
    assert!(matches!(folder_loaded(Ok(None)), WorktreeStep::Skip));
    assert!(matches!(folder_loaded(Err("db".to_string())), WorktreeStep::Skip));
    match folder_loaded(Ok(Some("/w".to_string()))) {
        WorktreeStep::CheckPath(p) => assert_eq!(p, "/w"),
        _ => panic!("the path is looked at"),
    }
    assert!(matches!(path_checked("/w".to_string(), false), WorktreeStep::Skip));
    match path_checked("/w".to_string(), true) {
        WorktreeStep::Reset(p) => assert_eq!(p, "/w"),
        _ => panic!("the worktree is reset"),
    }
}

/// The `max_attempts` of a configuration.
fn max_attempts(json: &str) -> Result<u64, String> {
    let value: serde_json::Value = serde_json::from_str(json).map_err(|e| e.to_string())?;
    value
        .get("max_attempts")
        .and_then(|n| n.as_u64())
        .ok_or_else(|| "missing field `max_attempts`".to_string())
}

/// The configuration of an issue in the space with the given default.
fn resolve(own: Option<&str>, space_id: i32, default_config: Option<&str>) -> Result<u64, LoopError> {
    let json = match effective_config(own, space_id) {
        ConfigStep::Parse(json) => json,
        ConfigStep::LoadSpace(id) => {
            assert_eq!(id, space_id);
            space_loaded(id, Ok(default_config.map(|s| s.to_string())))?
        }
    };
    config_parsed(max_attempts(&json))
}

#[test]
fn inheriting_issue_resolves_space_default() {
    let cfg = resolve(None, 3, Some(r#"{"max_attempts":99}"#)).unwrap();
    assert_eq!(cfg, 99, "inherits the space default");
}

#[test]
fn custom_issue_uses_its_own_config() {
    let cfg = resolve(Some(r#"{"max_attempts":42}"#), 3, Some(r#"{"max_attempts":99}"#)).unwrap();
    assert_eq!(cfg, 42, "uses its own config, not the space default");
    assert_eq!(resolve(Some(r#"{"max_attempts":42}"#), 3, None).unwrap(), 42);
}

#[test]
fn malformed_config_is_hard_error() {
    let err = resolve(Some("{not valid json"), 3, Some(r#"{"max_attempts":99}"#)).unwrap_err();
    assert!(matches!(err, LoopError::InvalidConfig(_)));
    let err = resolve(None, 3, Some("{not valid json")).unwrap_err();
    assert!(matches!(err, LoopError::InvalidConfig(_)));
}

#[test]
fn missing_space_is_named_in_the_error() {
    for (id, text) in [(17, "loop_space 17"), (-4, "loop_space -4"), (0, "loop_space 0")] {
        match resolve(None, id, None).unwrap_err() {
            LoopError::NotFound(what) => assert_eq!(what, text),
            other => panic!("{other:?}"),
        }
    }
    match space_loaded(1, Err("locked".to_string())).unwrap_err() {
        LoopError::Database(reason) => assert_eq!(reason, "locked"),
        other => panic!("{other:?}"),
    }
}
