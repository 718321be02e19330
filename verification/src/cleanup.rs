//! Removing a worktree and pruning phantom entries: the only operations that
//! change the disk, always behind an explicit call, with a dry run first.
//!
//! The library decides what git is asked to do and what the caller is told;
//! running git is the caller's part.
use vstd::prelude::*;

use crate::text::{concat_text, lossy_text, owned_text, shell_quote, shell_quoted, string_chars, string_of, trim_chars, trimmed, utf8_lossy};

verus! {

/// What a cleanup did (or, in a dry run, would do).
pub struct CleanupResult {
    pub ok: bool,
    pub dry_run: bool,
    /// The exact command, for display and for the audit log.
    pub command: String,
    /// What git said (stdout and stderr), trimmed.
    pub output: String,
}

/// A git command to run: `git -C <repo> <args...>`.
pub struct GitInvocation {
    pub repo: String,
    pub args: Vec<String>,
    pub command: String,
    pub dry_run: bool,
}

/// Either the finished result, or the git command that produces it.
pub enum CleanupStep {
    Done(CleanupResult),
    Run(GitInvocation),
}

/// How running git ended.
pub enum GitOutcome {
    /// git ran; its exit status and raw output.
    Finished { success: bool, stdout: Vec<u8>, stderr: Vec<u8> },
    /// git could not be started; the error's text.
    SpawnFailed { error: String },
}

/// The command shown for removing a worktree, repository and path
/// shell-quoted.
pub open spec fn remove_command(repo: Seq<char>, path: Seq<char>) -> Seq<char> {
    "git -C "@ + shell_quoted(repo) + " worktree remove "@ + shell_quoted(path)
}

/// The command shown for pruning a repository's phantom worktrees, the
/// repository shell-quoted.
pub open spec fn prune_command(repo: Seq<char>, dry_run: bool) -> Seq<char> {
    "git -C "@ + shell_quoted(repo) + " worktree prune -v"@ + if dry_run {
        " -n"@
    } else {
        Seq::<char>::empty()
    }
}

/// What a dry-run removal reports instead of running git.
pub open spec fn dry_run_note() -> Seq<char> {
    "dry run — not executed (git would refuse if the worktree has uncommitted or untracked changes)"@
}

/// git's stdout and stderr (each trimmed) as one text: stdout, then stderr on
/// a line of its own when both have something.
pub open spec fn joined_output(out: Seq<char>, err: Seq<char>) -> Seq<char> {
    if err.len() == 0 {
        out
    } else if out.len() == 0 {
        err
    } else {
        out + seq!['\n'] + err
    }
}

/// Success and text of a git run, as reported to the user.
pub open spec fn captured(outcome: GitOutcome) -> (bool, Seq<char>) {
    match outcome {
        GitOutcome::Finished { success, stdout, stderr } => (
            success,
            joined_output(trimmed(utf8_lossy(stdout@)), trimmed(utf8_lossy(stderr@))),
        ),
        GitOutcome::SpawnFailed { error } => (false, "failed to run git: "@ + error@),
    }
}

/// Success and text of a git run: stdout and stderr decoded, trimmed and
/// joined; a git that did not start is a failure that says why.
pub fn capture_git_output(outcome: &GitOutcome) -> (r: (bool, String))
    ensures
        r.0 == captured(*outcome).0,
        r.1@ == captured(*outcome).1,
{
    match outcome {
        GitOutcome::Finished { success, stdout, stderr } => {
            let out = trim_chars(&string_chars(&lossy_text(stdout.as_slice())));
            let err = trim_chars(&string_chars(&lossy_text(stderr.as_slice())));
            if err.len() == 0 {
                (*success, string_of(&out))
            } else if out.len() == 0 {
                (*success, string_of(&err))
            } else {
                let a = concat_text(string_of(&out).as_str(), "\n");
                let b = concat_text(a.as_str(), string_of(&err).as_str());
                proof {
                    reveal_strlit("\n");
                }
                (*success, b)
            }
        },
        GitOutcome::SpawnFailed { error } => (false, concat_text("failed to run git: ", error.as_str())),
    }
}

/// Removes a linked worktree with `git worktree remove`, never `--force`, so
/// git itself refuses a worktree with uncommitted or untracked changes.
/// git has no dry run for it: a dry run reports the command and runs nothing.
pub fn remove_worktree(repo: &str, path: &str, dry_run: bool) -> (r: CleanupStep)
    ensures
        dry_run ==> (r matches CleanupStep::Done(res) && res.ok && res.dry_run
            && res.command@ == remove_command(repo@, path@) && res.output@ == dry_run_note()),
        !dry_run ==> (r matches CleanupStep::Run(g) && g.repo@ == repo@ && !g.dry_run
            && g.command@ == remove_command(repo@, path@)
            && g.args.deep_view() == seq!["worktree"@, "remove"@, path@]),
{
    let c1 = concat_text("git -C ", shell_quote(repo).as_str());
    let c2 = concat_text(c1.as_str(), " worktree remove ");
    let command = concat_text(c2.as_str(), shell_quote(path).as_str());
    if dry_run {
        let output = owned_text(
            "dry run — not executed (git would refuse if the worktree has uncommitted or untracked changes)",
        );
        assert(output@ =~= dry_run_note());
        return CleanupStep::Done(CleanupResult { ok: true, dry_run: true, command, output });
    }
    let mut args: Vec<String> = Vec::new();
    args.push(owned_text("worktree"));
    args.push(owned_text("remove"));
    args.push(owned_text(path));
    proof {
        assert(args.deep_view() =~= seq!["worktree"@, "remove"@, path@]);
    }
    CleanupStep::Run(GitInvocation { repo: owned_text(repo), args, command, dry_run: false })
}

/// Prunes phantom worktree entries (their directories are gone) with
/// `git worktree prune -v`; a dry run uses git's own `-n`.
pub fn prune_worktrees(repo: &str, dry_run: bool) -> (r: GitInvocation)
    ensures
        r.repo@ == repo@,
        r.dry_run == dry_run,
        r.command@ == prune_command(repo@, dry_run),
        dry_run ==> r.args.deep_view() == seq!["worktree"@, "prune"@, "-n"@, "-v"@],
        !dry_run ==> r.args.deep_view() == seq!["worktree"@, "prune"@, "-v"@],
{
    let mut args: Vec<String> = Vec::new();
    args.push(owned_text("worktree"));
    args.push(owned_text("prune"));
    if dry_run {
        args.push(owned_text("-n"));
    }
    args.push(owned_text("-v"));
    let c1 = concat_text("git -C ", shell_quote(repo).as_str());
    let c2 = concat_text(c1.as_str(), " worktree prune -v");
    let command = if dry_run {
        concat_text(c2.as_str(), " -n")
    } else {
        owned_text(c2.as_str())
    };
    proof {
        if dry_run {
            assert(args.deep_view() =~= seq!["worktree"@, "prune"@, "-n"@, "-v"@]);
        } else {
            assert(args.deep_view() =~= seq!["worktree"@, "prune"@, "-v"@]);
            assert(command@ =~= prune_command(repo@, dry_run));
        }
    }
    GitInvocation { repo: owned_text(repo), args, command, dry_run }
}

/// The result of a cleanup once its git command has run.
pub fn finish_cleanup(run: GitInvocation, outcome: &GitOutcome) -> (r: CleanupResult)
    ensures
        r.ok == captured(*outcome).0,
        r.output@ == captured(*outcome).1,
        r.dry_run == run.dry_run,
        r.command@ == run.command@,
{
    let (ok, output) = capture_git_output(outcome);
    CleanupResult { ok, dry_run: run.dry_run, command: run.command, output }
}

} // verus!
