//! One linked worktree judged: is it safe to remove, and why.
//!
//! Every "reclaimable" flag rests on a fact that git reports: the worktree is
//! on the default branch, has no commits beyond it, is merged into it, or is a
//! phantom that git flags as prunable; and git must not hold it locked. A
//! merged pull request is listed but advisory, and an old last commit is shown,
//! but neither counts as reclaimable on its own.
use vstd::prelude::*;

use crate::porcelain::{RawWorktree, RawWorktreeView};
use crate::text::{
    chars_of, concat_text, contains_string, owned_text, shell_quote, shell_quoted, decimal, i64_text, lines_of, parse_i64, parsed_i64,
    split_lines, string_chars, string_of,
};

verus! {

/// Days without a commit after which a worktree is "stale" (shown only).
pub const STALE_DAYS: i64 = 60;

/// The audit's verdict on one linked worktree.
pub struct WorktreeEntry {
    pub path: String,
    pub name: String,
    pub branch: Option<String>,
    /// ISO 8601 date of the last commit.
    pub last_commit: Option<String>,
    pub age_days: Option<i64>,
    /// HEAD is an ancestor of the default branch, with commits of its own
    /// (checked off the default branch only).
    pub merged: bool,
    /// HEAD is the default branch's own commit: no commits beyond it.
    pub undiverged: bool,
    /// Checked out on the default branch itself.
    pub on_default: bool,
    /// A merged pull request for this branch (`None` without pull-request data).
    pub pr_merged: Option<bool>,
    /// git flagged it as prunable (its directory is gone).
    pub prunable: bool,
    /// git keeps it locked.
    pub locked: bool,
    /// `age_days > STALE_DAYS`.
    pub stale: bool,
    pub size_kb: Option<u64>,
    /// Why it is listed.
    pub reasons: Vec<String>,
    /// A safe reason holds and it is not locked (never staleness or a merged
    /// pull request alone).
    pub reclaimable: bool,
    /// The exact command to remove or prune it.
    pub command: String,
}

/// A [`WorktreeEntry`] seen as characters.
pub struct WorktreeEntryView {
    pub path: Seq<char>,
    pub name: Seq<char>,
    pub branch: Option<Seq<char>>,
    pub last_commit: Option<Seq<char>>,
    pub age_days: Option<i64>,
    pub merged: bool,
    pub undiverged: bool,
    pub on_default: bool,
    pub pr_merged: Option<bool>,
    pub prunable: bool,
    pub locked: bool,
    pub stale: bool,
    pub size_kb: Option<u64>,
    pub reasons: Seq<Seq<char>>,
    pub reclaimable: bool,
    pub command: Seq<char>,
}

impl View for WorktreeEntry {
    type V = WorktreeEntryView;

    open spec fn view(&self) -> WorktreeEntryView {
        WorktreeEntryView {
            path: self.path@,
            name: self.name@,
            branch: self.branch.deep_view(),
            last_commit: self.last_commit.deep_view(),
            age_days: self.age_days,
            merged: self.merged,
            undiverged: self.undiverged,
            on_default: self.on_default,
            pr_merged: self.pr_merged,
            prunable: self.prunable,
            locked: self.locked,
            stale: self.stale,
            size_kb: self.size_kb,
            reasons: self.reasons.deep_view(),
            reclaimable: self.reclaimable,
            command: self.command@,
        }
    }
}

/// The questions that judging a worktree asks git and `du`.
pub struct Probes {
    /// `git log -1 --format=%cI%n%ct <head>`, for this head.
    pub log_head: Option<String>,
    /// `git merge-base --is-ancestor <head> <default ref>`, for these two, and
    /// `git rev-parse --verify <default ref>^{commit}`.
    pub ancestor: Option<(String, String)>,
    /// `du -sk <path>`.
    pub measure_size: bool,
}

/// The answers to [`Probes`]; an answer to a question not asked is ignored.
pub struct ProbeAnswers {
    /// The log's trimmed stdout, when git succeeded.
    pub log_output: Option<String>,
    pub is_ancestor: bool,
    /// The default ref's commit (trimmed stdout of `rev-parse`, when it succeeded).
    pub default_tip: Option<String>,
    pub size_kb: Option<u64>,
}

/// [`Probes`] seen as characters.
pub struct ProbesView {
    pub log_head: Option<Seq<char>>,
    pub ancestor: Option<(Seq<char>, Seq<char>)>,
    pub measure_size: bool,
}

impl View for Probes {
    type V = ProbesView;

    open spec fn view(&self) -> ProbesView {
        ProbesView {
            log_head: self.log_head.deep_view(),
            ancestor: match self.ancestor {
                Some((h, d)) => Some((h@, d@)),
                None => None,
            },
            measure_size: self.measure_size,
        }
    }
}

/// The worktree's directory is there: git does not flag it and it is on disk.
pub open spec fn is_present(raw: RawWorktreeView, on_disk: bool) -> bool {
    !raw.prunable && on_disk
}

/// Checked out on the default branch.
pub open spec fn is_on_default(branch: Option<Seq<char>>, default_short: Option<Seq<char>>) -> bool {
    match (branch, default_short) {
        (Some(b), Some(d)) => b == d,
        _ => false,
    }
}

/// The questions asked about a worktree: its last commit and the merge check
/// only when its directory is there (the merge check also only off the default
/// branch, with a HEAD and a default ref), its size only on a full scan.
pub open spec fn planned_probes(
    raw: RawWorktreeView,
    default_ref: Option<Seq<char>>,
    default_short: Option<Seq<char>>,
    include_sizes: bool,
    present: bool,
) -> ProbesView {
    ProbesView {
        log_head: if present {
            raw.head
        } else {
            None
        },
        ancestor: if present && !is_on_default(raw.branch, default_short) && raw.head is Some
            && default_ref is Some {
            Some((raw.head->0, default_ref->0))
        } else {
            None
        },
        measure_size: include_sizes && present,
    }
}

/// The first line of the log: the commit's ISO date.
pub open spec fn commit_iso(log: Seq<char>) -> Option<Seq<char>> {
    let ls = lines_of(log);
    if ls.len() >= 1 {
        Some(ls[0])
    } else {
        None
    }
}

/// The second line of the log, read as the commit's Unix time.
pub open spec fn commit_time(log: Seq<char>) -> Option<i64> {
    let ls = lines_of(log);
    if ls.len() >= 2 {
        parsed_i64(ls[1])
    } else {
        None
    }
}

/// Whole days from `ct` to `now`, rounded toward zero as Rust's `/` does.
pub open spec fn days_between(now: i64, ct: i64) -> int {
    let d: int = now - ct;
    if d >= 0 {
        d / 86400
    } else {
        -((-d) / 86400)
    }
}

/// `now - ct` stays in `i64` for the commit time in the log, if any (the
/// subtraction would overflow otherwise).
pub open spec fn commit_age_fits(now: i64, log: Option<Seq<char>>) -> bool {
    match log {
        Some(s) => match commit_time(s) {
            Some(ct) => i64::MIN <= now - ct <= i64::MAX,
            None => true,
        },
        None => true,
    }
}

/// The last commit's date and age in days, from the log when it was asked for.
pub open spec fn commit_facts(asked: bool, log: Option<Seq<char>>, now: i64) -> (
    Option<Seq<char>>,
    Option<i64>,
) {
    if !asked {
        (None, None)
    } else {
        match log {
            Some(s) => (
                commit_iso(s),
                match commit_time(s) {
                    Some(ct) => Some(days_between(now, ct) as i64),
                    None => None,
                },
            ),
            None => (None, None),
        }
    }
}

/// `Some(d)` of a default short name, else the fallback.
pub open spec fn or_text(o: Option<Seq<char>>, fallback: Seq<char>) -> Seq<char> {
    match o {
        Some(s) => s,
        None => fallback,
    }
}

/// Whether the branch has a merged pull request; unknown when the listing of
/// merged pull requests is empty.
pub open spec fn pr_verdict(branch: Option<Seq<char>>, merged_prs: Seq<Seq<char>>) -> Option<bool> {
    if merged_prs.len() == 0 {
        None
    } else {
        Some(
            match branch {
                Some(b) => merged_prs.contains(b),
                None => false,
            },
        )
    }
}

/// What the name of a path's last component is: `Path::file_name` as the
/// target platform reads paths.
pub uninterp spec fn path_file_name(path: Seq<char>) -> Option<Seq<char>>;

/// Calls `Path::file_name` (then `OsStr::to_string_lossy`, which changes nothing
/// in a name cut from a `&str`). Its result is named `path_file_name`.
#[verifier::external_body]
fn file_name_of(path: &str) -> (r: Option<String>)
    ensures
        r.deep_view() == path_file_name(path@),
{
    std::path::Path::new(path).file_name().map(|n| n.to_string_lossy().into_owned())
}

/// The reasons listed for a worktree, in order.
pub open spec fn reasons_for(
    prunable: bool,
    on_default: bool,
    undiverged: bool,
    merged: bool,
    pr_merged: Option<bool>,
    stale: bool,
    age_days: Option<i64>,
    default_short: Option<Seq<char>>,
) -> Seq<Seq<char>> {
    if prunable {
        seq!["directory gone → prunable"@]
    } else {
        (if on_default {
            seq!["on default branch ("@ + or_text(default_short, "?"@) + ")"@]
        } else if undiverged {
            seq!["no commits beyond "@ + or_text(default_short, "default"@)]
        } else if merged {
            seq!["merged into "@ + or_text(default_short, "default"@)]
        } else {
            Seq::<Seq<char>>::empty()
        }) + (if pr_merged == Some(true) {
            seq!["PR merged"@]
        } else {
            Seq::<Seq<char>>::empty()
        }) + (if stale {
            seq![
                "no commits in "@ + decimal(
                    match age_days {
                        Some(d) => d as int,
                        None => 0,
                    },
                ) + "d"@,
            ]
        } else {
            Seq::<Seq<char>>::empty()
        })
    }
}

/// The exact command offered for a worktree: prune for a phantom, else remove
/// its path; the repository and the path shell-quoted.
pub open spec fn entry_command(main: Seq<char>, path: Seq<char>, prunable: bool) -> Seq<char> {
    if prunable {
        "git -C "@ + shell_quoted(main) + " worktree prune"@
    } else {
        "git -C "@ + shell_quoted(main) + " worktree remove "@ + shell_quoted(path)
    }
}

/// The audit's verdict on a linked worktree of the repository at `main`, given
/// git's and `du`'s answers to [`planned_probes`].
pub open spec fn analysis(
    raw: RawWorktreeView,
    main: Seq<char>,
    default_ref: Option<Seq<char>>,
    default_short: Option<Seq<char>>,
    merged_prs: Seq<Seq<char>>,
    now: i64,
    include_sizes: bool,
    on_disk: bool,
    log_output: Option<Seq<char>>,
    is_ancestor: bool,
    default_tip: Option<Seq<char>>,
    size_kb: Option<u64>,
) -> WorktreeEntryView {
    let present = is_present(raw, on_disk);
    let probes = planned_probes(raw, default_ref, default_short, include_sizes, present);
    let (last_commit, age_days) = commit_facts(probes.log_head is Some, log_output, now);
    let stale = match age_days {
        Some(d) => d > STALE_DAYS,
        None => false,
    };
    let on_default = is_on_default(raw.branch, default_short);
    let undiverged = !on_default && probes.ancestor is Some && default_tip == raw.head;
    let merged = !on_default && probes.ancestor is Some && is_ancestor && !undiverged;
    let pr_merged = pr_verdict(raw.branch, merged_prs);
    WorktreeEntryView {
        path: raw.path,
        name: or_text(path_file_name(raw.path), raw.path),
        branch: raw.branch,
        last_commit,
        age_days,
        merged,
        undiverged,
        on_default,
        pr_merged,
        prunable: raw.prunable,
        locked: raw.locked,
        stale,
        size_kb: if probes.measure_size {
            size_kb
        } else {
            None
        },
        reasons: reasons_for(
            raw.prunable,
            on_default,
            undiverged,
            merged,
            pr_merged,
            stale,
            age_days,
            default_short,
        ),
        reclaimable: !raw.locked && (raw.prunable || on_default || undiverged || merged),
        command: entry_command(main, raw.path, raw.prunable),
    }
}

fn opt_clone(o: &Option<String>) -> (r: Option<String>)
    ensures
        r.deep_view() == o.deep_view(),
{
    match o {
        Some(s) => Some(s.clone()),
        None => None,
    }
}

fn strings_equal(a: &String, b: &String) -> (r: bool)
    ensures
        r == (a@ == b@),
{
    *a == *b
}

/// Whether a worktree's directory is there: not flagged by git and found on disk.
pub fn worktree_present(raw: &RawWorktree, on_disk: bool) -> (r: bool)
    ensures
        r == is_present(raw@, on_disk),
{
    !raw.prunable && on_disk
}

/// Whether a worktree is checked out on the default branch.
pub fn on_default_branch(branch: &Option<String>, default_short: &Option<String>) -> (r: bool)
    ensures
        r == is_on_default(branch.deep_view(), default_short.deep_view()),
{
    match (branch, default_short) {
        (Some(b), Some(d)) => strings_equal(b, d),
        _ => false,
    }
}

/// The questions to ask git and `du` about a worktree.
pub fn probes_for(
    raw: &RawWorktree,
    default_ref: &Option<String>,
    default_short: &Option<String>,
    include_sizes: bool,
    present: bool,
) -> (r: Probes)
    ensures
        r@ == planned_probes(
            raw@,
            default_ref.deep_view(),
            default_short.deep_view(),
            include_sizes,
            present,
        ),
{
    let on_default = on_default_branch(&raw.branch, default_short);
    let log_head = if present {
        opt_clone(&raw.head)
    } else {
        None
    };
    let ancestor = if present && !on_default {
        match (&raw.head, default_ref) {
            (Some(h), Some(d)) => Some((h.clone(), d.clone())),
            _ => None,
        }
    } else {
        None
    };
    Probes { log_head, ancestor, measure_size: include_sizes && present }
}

/// The last commit's date and Unix time, from `git log`'s output.
fn read_log(log: &String) -> (r: (Option<String>, Option<i64>))
    ensures
        r.0.deep_view() == commit_iso(log@),
        r.1 == commit_time(log@),
{
    let lines = split_lines(&string_chars(log));
    proof {
        assert(lines.deep_view().len() == lines.len());
    }
    let iso = if lines.len() >= 1 {
        proof {
            assert(lines.deep_view()[0] == lines@[0]@);
        }
        Some(string_of(&lines[0]))
    } else {
        None
    };
    let time = if lines.len() >= 2 {
        proof {
            assert(lines.deep_view()[1] == lines@[1]@);
        }
        let t = string_of(&lines[1]);
        parse_i64(t.as_str())
    } else {
        None
    };
    (iso, time)
}

/// Whether the commit age can be computed without overflow: the precondition
/// of [`analyze`] on the log's answer.
pub fn commit_age_in_range(now: i64, log_output: &Option<String>) -> (r: bool)
    ensures
        r == commit_age_fits(now, log_output.deep_view()),
{
    match log_output {
        Some(s) => {
            let (_, t) = read_log(s);
            match t {
                Some(ct) => {
                    let d: i128 = now as i128 - ct as i128;
                    -9223372036854775808i128 <= d && d <= 9223372036854775807i128
                },
                None => true,
            }
        },
        None => true,
    }
}

fn whole_days(now: i64, ct: i64) -> (r: i64)
    requires
        i64::MIN <= now - ct <= i64::MAX,
    ensures
        r == days_between(now, ct),
{
    let d: i64 = now - ct;
    if d >= 0 {
        d / 86400
    } else {
        let m: i128 = -(d as i128);
        let q: i128 = m / 86400;
        (-q) as i64
    }
}

/// Judges one linked worktree of the repository at `main` (the working
/// directory that git runs in), from git's and `du`'s answers to the
/// questions of [`probes_for`].
pub fn analyze(
    raw: &RawWorktree,
    main: &str,
    default_ref: &Option<String>,
    default_short: &Option<String>,
    merged_prs: &Vec<String>,
    now: i64,
    include_sizes: bool,
    on_disk: bool,
    answers: &ProbeAnswers,
) -> (r: WorktreeEntry)
    requires
        planned_probes(
            raw@,
            default_ref.deep_view(),
            default_short.deep_view(),
            include_sizes,
            is_present(raw@, on_disk),
        ).log_head is Some ==> commit_age_fits(now, answers.log_output.deep_view()),
    ensures
        r@ == analysis(
            raw@,
            main@,
            default_ref.deep_view(),
            default_short.deep_view(),
            merged_prs.deep_view(),
            now,
            include_sizes,
            on_disk,
            answers.log_output.deep_view(),
            answers.is_ancestor,
            answers.default_tip.deep_view(),
            answers.size_kb,
        ),
        r.reclaimable == (!r.locked && (r.prunable || r.on_default || r.undiverged || r.merged)),
        r.prunable == raw.prunable,
        r.locked == raw.locked,
        r.on_default == is_on_default(raw.branch.deep_view(), default_short.deep_view()),
        r.merged ==> !r.on_default && !r.undiverged && !r.prunable && raw.head is Some
            && default_ref is Some && answers.is_ancestor,
        r.undiverged ==> !r.on_default && raw.head is Some && default_ref is Some
            && answers.default_tip.deep_view() == raw.head.deep_view(),
        r.pr_merged == pr_verdict(raw.branch.deep_view(), merged_prs.deep_view()),
        r.command@ == entry_command(main@, raw.path@, raw.prunable),
        r.path@ == raw.path@,
        r.branch.deep_view() == raw.branch.deep_view(),
        r.reclaimable ==> r.reasons@.len() > 0,
        r.stale ==> r.age_days is Some,
        (!include_sizes || r.prunable) ==> r.size_kb is None,
{
    let present = worktree_present(raw, on_disk);
    let probes = probes_for(raw, default_ref, default_short, include_sizes, present);
    let (last_commit, age_days) = if probes.log_head.is_some() {
        match &answers.log_output {
            Some(s) => {
                let (iso, t) = read_log(s);
                let age = match t {
                    Some(ct) => Some(whole_days(now, ct)),
                    None => None,
                };
                (iso, age)
            },
            None => (None, None),
        }
    } else {
        (None, None)
    };
    let stale = match age_days {
        Some(d) => d > STALE_DAYS,
        None => false,
    };
    let on_default = on_default_branch(&raw.branch, default_short);
    let same_tip = match (&answers.default_tip, &raw.head) {
        (Some(t), Some(h)) => strings_equal(t, h),
        (None, None) => true,
        _ => false,
    };
    let undiverged = !on_default && probes.ancestor.is_some() && same_tip;
    let merged = !on_default && probes.ancestor.is_some() && answers.is_ancestor && !undiverged;
    let pr_merged = if merged_prs.len() == 0 {
        None
    } else {
        Some(
            match &raw.branch {
                Some(b) => contains_string(merged_prs, b),
                None => false,
            },
        )
    };
    let size_kb = if probes.measure_size {
        answers.size_kb
    } else {
        None
    };
    let ghost ds = default_short.deep_view();

    let mut reasons: Vec<String> = Vec::new();
    if raw.prunable {
        reasons.push(owned_text("directory gone → prunable"));
    } else {
        if on_default {
            let short = match default_short {
                Some(d) => d.clone(),
                None => owned_text("?"),
            };
            let a = concat_text("on default branch (", short.as_str());
            reasons.push(concat_text(a.as_str(), ")"));
        } else if undiverged {
            let short = match default_short {
                Some(d) => d.clone(),
                None => owned_text("default"),
            };
            reasons.push(concat_text("no commits beyond ", short.as_str()));
        } else if merged {
            let short = match default_short {
                Some(d) => d.clone(),
                None => owned_text("default"),
            };
            reasons.push(concat_text("merged into ", short.as_str()));
        }
        if pr_merged == Some(true) {
            reasons.push(owned_text("PR merged"));
        }
        if stale {
            let days = match age_days {
                Some(d) => d,
                None => 0,
            };
            let a = concat_text("no commits in ", i64_text(days).as_str());
            reasons.push(concat_text(a.as_str(), "d"));
        }
    }
    proof {
        assert(reasons.deep_view() =~= reasons_for(
            raw.prunable,
            on_default,
            undiverged,
            merged,
            pr_merged,
            stale,
            age_days,
            ds,
        ));
    }
    let reclaimable = !raw.locked && (raw.prunable || on_default || undiverged || merged);

    let quoted_main = shell_quote(main);
    let a = concat_text("git -C ", quoted_main.as_str());
    let command = if raw.prunable {
        concat_text(a.as_str(), " worktree prune")
    } else {
        let b = concat_text(a.as_str(), " worktree remove ");
        concat_text(b.as_str(), shell_quote(raw.path.as_str()).as_str())
    };
    let name = match file_name_of(raw.path.as_str()) {
        Some(n) => n,
        None => raw.path.clone(),
    };
    WorktreeEntry {
        path: raw.path.clone(),
        name,
        branch: opt_clone(&raw.branch),
        last_commit,
        age_days,
        merged,
        undiverged,
        on_default,
        pr_merged,
        prunable: raw.prunable,
        locked: raw.locked,
        stale,
        size_kb,
        reasons,
        reclaimable,
        command,
    }
}

/// Law: what is asked of git does not depend on whether sizes are measured:
/// a fast scan asks the same last-commit and merge questions as a full one,
/// and only the size question differs.
pub proof fn lemma_fast_scan_asks_git_alike(
    raw: RawWorktreeView,
    default_ref: Option<Seq<char>>,
    default_short: Option<Seq<char>>,
    present: bool,
)
    ensures
        planned_probes(raw, default_ref, default_short, false, present).ancestor == planned_probes(
            raw,
            default_ref,
            default_short,
            true,
            present,
        ).ancestor,
        planned_probes(raw, default_ref, default_short, false, present).log_head == planned_probes(
            raw,
            default_ref,
            default_short,
            true,
            present,
        ).log_head,
        !planned_probes(raw, default_ref, default_short, false, present).measure_size,
        planned_probes(raw, default_ref, default_short, true, present).measure_size == present,
{
}

/// Law: a worktree whose directory is there, off the default branch, with a
/// HEAD and a default ref, is always asked whether its HEAD is merged into
/// the default ref, on any scan.
pub proof fn lemma_merge_question_asked(
    raw: RawWorktreeView,
    default_ref: Option<Seq<char>>,
    default_short: Option<Seq<char>>,
    include_sizes: bool,
)
    requires
        raw.head is Some,
        default_ref is Some,
        !(raw.branch is Some && default_short is Some && raw.branch->0 == default_short->0),
    ensures
        planned_probes(raw, default_ref, default_short, include_sizes, true).ancestor == Some(
            (raw.head->0, default_ref->0),
        ),
        planned_probes(raw, default_ref, default_short, include_sizes, true).log_head == raw.head,
{
}

/// Law: a present, unlocked worktree off the default branch whose HEAD git
/// finds to be an ancestor of the default ref, and which is not the default
/// ref's own commit, is merged and reclaimable, on a fast scan as on a full
/// one, and says so first among its reasons.
pub proof fn lemma_merged_found_on_any_scan(
    raw: RawWorktreeView,
    main: Seq<char>,
    default_ref: Option<Seq<char>>,
    default_short: Option<Seq<char>>,
    merged_prs: Seq<Seq<char>>,
    now: i64,
    include_sizes: bool,
    log_output: Option<Seq<char>>,
    default_tip: Option<Seq<char>>,
    size_kb: Option<u64>,
)
    requires
        !raw.prunable,
        !raw.locked,
        raw.head is Some,
        default_ref is Some,
        !(raw.branch is Some && default_short is Some && raw.branch->0 == default_short->0),
        default_tip != raw.head,
    ensures
        ({
            let e = analysis(
                raw,
                main,
                default_ref,
                default_short,
                merged_prs,
                now,
                include_sizes,
                true,
                log_output,
                true,
                default_tip,
                size_kb,
            );
            &&& e.merged
            &&& !e.undiverged
            &&& e.reclaimable
            &&& e.reasons.len() > 0
            &&& e.reasons[0] == "merged into "@ + or_text(default_short, "default"@)
        }),
{
    let e = analysis(
        raw,
        main,
        default_ref,
        default_short,
        merged_prs,
        now,
        include_sizes,
        true,
        log_output,
        true,
        default_tip,
        size_kb,
    );
    assert(e.reasons[0] == "merged into "@ + or_text(default_short, "default"@));
}

} // verus!
