use arrow::analyze::{analyze, commit_age_in_range, probes_for, worktree_present, ProbeAnswers, WorktreeEntry};
use arrow::porcelain::RawWorktree;

const NOW: i64 = 1_700_000_000;
const DAY: i64 = 86_400;
const HEAD: &str = "abc123";

fn raw(path: &str, branch: Option<&str>, prunable: bool) -> RawWorktree {
    RawWorktree {
        path: path.to_string(),
        head: Some(HEAD.to_string()),
        branch: branch.map(|b| b.to_string()),
        prunable,
        locked: false,
    }
}

fn log(days_ago: i64) -> Option<String> {
    Some(format!("2023-11-14T22:13:20+00:00\n{}", NOW - days_ago * DAY))
}

fn answers(log_output: Option<String>, is_ancestor: bool, tip: &str, size_kb: Option<u64>) -> ProbeAnswers {
    ProbeAnswers { log_output, is_ancestor, default_tip: Some(tip.to_string()), size_kb }
}

fn judge(r: &RawWorktree, prs: &[&str], on_disk: bool, a: ProbeAnswers) -> WorktreeEntry {
    let prs: Vec<String> = prs.iter().map(|s| s.to_string()).collect();
    analyze(
        r,
        "/home/u/repo",
        &Some("origin/main".to_string()),
        &Some("main".to_string()),
        &prs,
        NOW,
        true,
        on_disk,
        &a,
    )
}

#[test]
fn merged_worktree_is_reclaimable() {
    let r = raw("/home/u/wt-feature", Some("feature"), false);
    let e = judge(&r, &[], true, answers(log(3), true, "fff999", Some(2048)));
    assert_eq!(e.name, "wt-feature");
    assert_eq!(e.last_commit.as_deref(), Some("2023-11-14T22:13:20+00:00"));
    assert_eq!(e.age_days, Some(3));
    assert!(e.merged && !e.undiverged && !e.on_default && !e.stale && !e.prunable && !e.locked);
    assert_eq!(e.pr_merged, None);
    assert_eq!(e.size_kb, Some(2048));
    assert!(e.reclaimable);
    assert_eq!(e.reasons, vec!["merged into main"]);
    assert_eq!(e.command, "git -C /home/u/repo worktree remove /home/u/wt-feature");
}

#[test]
fn undiverged_branch_is_not_called_merged() {
    let r = raw("/home/u/wt-feature", Some("feature"), false);
    let e = judge(&r, &[], true, answers(log(0), true, HEAD, None));
    assert!(e.undiverged && !e.merged && !e.on_default);
    assert!(e.reclaimable);
    assert_eq!(e.reasons, vec!["no commits beyond main"]);
}

#[test]
fn stale_alone_is_not_reclaimable() {
    let r = raw("/home/u/wt-old", Some("old"), false);
    let e = judge(&r, &["other"], true, answers(log(100), false, "fff999", Some(10)));
    assert!(e.stale);
    assert_eq!(e.pr_merged, Some(false));
    assert!(!e.reclaimable);
    assert_eq!(e.reasons, vec!["no commits in 100d"]);
}

#[test]
fn merged_pull_request_is_advisory() {
    let r = raw("/home/u/wt-pr", Some("feature"), false);
    let e = judge(&r, &["feature"], true, answers(log(1), false, "fff999", None));
    assert_eq!(e.pr_merged, Some(true));
    assert!(!e.merged && !e.reclaimable);
    assert_eq!(e.reasons, vec!["PR merged"]);
}

#[test]
fn on_default_branch_is_reclaimable() {
    let r = raw("/home/u/wt-main", Some("main"), false);
    let e = judge(&r, &["main"], true, ProbeAnswers { log_output: None, is_ancestor: true, default_tip: None, size_kb: None });
    assert!(e.on_default && !e.merged && !e.undiverged);
    assert_eq!(e.pr_merged, Some(true));
    assert!(e.reclaimable);
    assert_eq!(e.reasons, vec!["on default branch (main)", "PR merged"]);
    assert_eq!(e.last_commit, None);
    assert_eq!(e.age_days, None);
}

#[test]
fn phantom_worktree_is_pruned() {
    let r = raw("/home/u/wt-gone", Some("gone"), true);
    let e = judge(&r, &[], true, answers(log(1), true, "fff999", Some(5)));
    assert!(e.prunable && e.reclaimable && !e.merged);
    assert_eq!(e.size_kb, None);
    assert_eq!(e.age_days, None);
    assert_eq!(e.reasons, vec!["directory gone → prunable"]);
    assert_eq!(e.command, "git -C /home/u/repo worktree prune");
}

#[test]
fn missing_directory_is_not_a_phantom() {
    let r = raw("/mnt/off/wt", Some("x"), false);
    let e = judge(&r, &[], false, answers(log(1), true, "fff999", Some(5)));
    assert!(!e.prunable && !e.reclaimable && !e.merged);
    assert!(e.reasons.is_empty());
    assert_eq!(e.size_kb, None);
    assert_eq!(e.command, "git -C /home/u/repo worktree remove /mnt/off/wt");
}

#[test]
fn locked_worktree_is_never_reclaimable() {
    let mut r = raw("/home/u/wt-locked", Some("feature"), false);
    r.locked = true;
    let e = judge(&r, &[], true, answers(log(1), true, "fff999", None));
    assert!(e.locked && e.merged && !e.reclaimable);
    let mut gone = raw("/home/u/wt-gone", None, true);
    gone.locked = true;
    let e = judge(&gone, &[], false, answers(None, false, "x", None));
    assert!(e.prunable && !e.reclaimable);
}

#[test]
fn paths_are_shell_quoted_in_commands() {
    let r = raw("/home/u/my wt", Some("feature"), false);
    let e = analyze(
        &r,
        "/home/u/my repo",
        &None,
        &None,
        &vec![],
        NOW,
        false,
        true,
        &ProbeAnswers { log_output: None, is_ancestor: false, default_tip: None, size_kb: None },
    );
    assert_eq!(e.command, "git -C '/home/u/my repo' worktree remove '/home/u/my wt'");
}

#[test]
fn future_commit_and_unknown_defaults() {
    let r = raw("/", None, false);
    let e = analyze(
        &r,
        "/repo",
        &None,
        &None,
        &vec![],
        NOW,
        false,
        true,
        &ProbeAnswers {
            log_output: Some(format!("d\n{}", NOW + DAY + 1)),
            is_ancestor: true,
            default_tip: Some(HEAD.to_string()),
            size_kb: Some(1),
        },
    );
    assert_eq!(e.age_days, Some(-1));
    assert_eq!(e.name, "/");
    assert!(!e.merged && !e.undiverged && !e.on_default && !e.reclaimable);
    assert_eq!(e.size_kb, None);
    assert!(e.reasons.is_empty());
}

#[test]
fn probes_follow_presence() {
    let r = raw("/home/u/wt", Some("feature"), false);
    let p = probes_for(&r, &Some("origin/main".to_string()), &Some("main".to_string()), true, worktree_present(&r, true));
    assert_eq!(p.log_head.as_deref(), Some(HEAD));
    assert_eq!(p.ancestor, Some((HEAD.to_string(), "origin/main".to_string())));
    assert!(p.measure_size);
    let p = probes_for(&r, &Some("origin/main".to_string()), &Some("feature".to_string()), false, true);
    assert_eq!(p.ancestor, None);
    assert!(!p.measure_size);
    let gone = raw("/x", Some("feature"), true);
    assert!(!worktree_present(&gone, true));
    let p = probes_for(&gone, &Some("origin/main".to_string()), &None, true, false);
    assert_eq!(p.log_head, None);
    assert_eq!(p.ancestor, None);
    assert!(!p.measure_size);
}

#[test]
fn commit_age_range_check() {
    assert!(commit_age_in_range(NOW, &log(5)));
    assert!(commit_age_in_range(NOW, &None));
    assert!(commit_age_in_range(NOW, &Some("x\nnot a number".to_string())));
    assert!(!commit_age_in_range(-10, &Some(format!("x\n{}", i64::MAX))));
}
