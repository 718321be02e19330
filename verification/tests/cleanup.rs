use arrow::cleanup::{
    capture_git_output, finish_cleanup, prune_worktrees, remove_worktree, CleanupStep, GitOutcome,
};

#[test]
fn remove_dry_run_touches_nothing() {
    match remove_worktree("/r", "/wt/a", true) {
        CleanupStep::Done(res) => {
            assert!(res.ok && res.dry_run);
            assert_eq!(res.command, "git -C /r worktree remove /wt/a");
            assert_eq!(
                res.output,
                "dry run — not executed (git would refuse if the worktree has uncommitted or untracked changes)"
            );
        }
        CleanupStep::Run(_) => panic!("a dry run must not run git"),
    }
}

#[test]
fn remove_runs_git_without_force() {
    match remove_worktree("/r", "/wt/a", false) {
        CleanupStep::Run(g) => {
            assert_eq!(g.repo, "/r");
            assert_eq!(g.args, vec!["worktree", "remove", "/wt/a"]);
            assert!(!g.args.iter().any(|a| a == "--force"));
            assert_eq!(g.command, "git -C /r worktree remove /wt/a");
            assert!(!g.dry_run);
        }
        CleanupStep::Done(_) => panic!("a real removal runs git"),
    }
}

#[test]
fn commands_are_shell_quoted() {
    match remove_worktree("/r", "/my wt", true) {
        CleanupStep::Done(res) => {
            assert!(res.ok && res.dry_run);
            assert_eq!(res.command, "git -C /r worktree remove '/my wt'");
        }
        CleanupStep::Run(_) => panic!("a dry run must not run git"),
    }
    match remove_worktree("/a b", "/it's", false) {
        CleanupStep::Run(g) => {
            assert_eq!(g.command, "git -C '/a b' worktree remove '/it'\\''s'");
            assert_eq!(g.args, vec!["worktree", "remove", "/it's"]);
            assert_eq!(g.repo, "/a b");
        }
        CleanupStep::Done(_) => panic!("a real removal runs git"),
    }
    assert_eq!(prune_worktrees("", true).command, "git -C '' worktree prune -v -n");
}

#[test]
fn prune_uses_git_dry_run_flag() {
    let g = prune_worktrees("/r", true);
    assert_eq!(g.args, vec!["worktree", "prune", "-n", "-v"]);
    assert_eq!(g.command, "git -C /r worktree prune -v -n");
    assert!(g.dry_run);
    let g = prune_worktrees("/r", false);
    assert_eq!(g.args, vec!["worktree", "prune", "-v"]);
    assert_eq!(g.command, "git -C /r worktree prune -v");
    assert!(!g.dry_run);
}

#[test]
fn output_joins_trimmed_stdout_and_stderr() {
    let o = GitOutcome::Finished {
        success: true,
        stdout: b"  Removing x\n".to_vec(),
        stderr: b"warning: y \n".to_vec(),
    };
    assert_eq!(capture_git_output(&o), (true, "Removing x\nwarning: y".to_string()));
    let o = GitOutcome::Finished { success: false, stdout: b"\n".to_vec(), stderr: b"fatal: no\n".to_vec() };
    assert_eq!(capture_git_output(&o), (false, "fatal: no".to_string()));
    let o = GitOutcome::Finished { success: true, stdout: b"ok".to_vec(), stderr: b" \t".to_vec() };
    assert_eq!(capture_git_output(&o), (true, "ok".to_string()));
    let o = GitOutcome::Finished { success: true, stdout: vec![0x61, 0xff, 0x62], stderr: vec![] };
    assert_eq!(capture_git_output(&o).1, "a\u{fffd}b");
}

#[test]
fn spawn_failure_is_reported() {
    let g = prune_worktrees("/r", false);
    let res = finish_cleanup(g, &GitOutcome::SpawnFailed { error: "No such file or directory (os error 2)".to_string() });
    assert!(!res.ok);
    assert!(!res.dry_run);
    assert_eq!(res.command, "git -C /r worktree prune -v");
    assert_eq!(res.output, "failed to run git: No such file or directory (os error 2)");
}
