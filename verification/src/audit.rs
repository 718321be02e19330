//! The audit of a set of repositories: which of them to audit, and each one's
//! worktrees totalled and ordered.
use vstd::prelude::*;

use crate::analyze::WorktreeEntry;
use crate::order::{entry_before, repo_before, sort_entries, sort_repos};
use crate::porcelain::{parse_porcelain, porcelain_worktrees, raw_views, RawWorktree, RawWorktreeView};

verus! {

/// The audit of all repositories.
pub struct WorktreeAudit {
    pub repos: Vec<WorktreeRepo>,
    /// A `gh pr list` run succeeded: pull-request checks were made.
    pub gh_available: bool,
}

/// One repository with linked worktrees.
pub struct WorktreeRepo {
    /// The working directory the repository was found in.
    pub parent_repo: String,
    pub default_branch: Option<String>,
    pub worktrees: Vec<WorktreeEntry>,
    pub total_kb: u64,
    /// Disk on worktrees flagged reclaimable: a lower bound, stale-but-unmerged
    /// worktrees excluded.
    pub reclaimable_kb: u64,
}

/// `p` maps `0..n` one to one onto `0..n`.
pub open spec fn is_permutation(p: Seq<int>, n: int) -> bool {
    &&& p.len() == n
    &&& forall|i: int| 0 <= i < n ==> 0 <= #[trigger] p[i] < n
    &&& forall|i: int, j: int| 0 <= i < j < n ==> p[i] != p[j]
}

/// `new` is `old` sorted stably by the strict order `before`: the same items,
/// none before one that goes before it, and items that tie in their old order.
pub open spec fn stably_sorted<T>(before: spec_fn(T, T) -> bool, old: Seq<T>, new: Seq<T>) -> bool {
    &&& new.len() == old.len()
    &&& exists|p: Seq<int>|
        #[trigger] is_permutation(p, old.len() as int) && (forall|i: int|
            0 <= i < new.len() ==> new[i] == old[#[trigger] p[i]]) && (forall|i: int, j: int|
            0 <= i < j < new.len() && !before(new[i], new[j]) ==> p[i] < p[j])
    &&& forall|i: int, j: int| 0 <= i < j < new.len() ==> !before(#[trigger] new[j], #[trigger] new[i])
}

/// Disk (KB) on the given worktrees whose size is known.
pub open spec fn total_size(es: Seq<WorktreeEntry>) -> int
    decreases es.len(),
{
    if es.len() == 0 {
        0
    } else {
        total_size(es.drop_last()) + match es.last().size_kb {
            Some(k) => k as int,
            None => 0,
        }
    }
}

/// Disk (KB) on the given worktrees that are reclaimable and of known size.
pub open spec fn reclaimable_size(es: Seq<WorktreeEntry>) -> int
    decreases es.len(),
{
    if es.len() == 0 {
        0
    } else {
        reclaimable_size(es.drop_last()) + match es.last().size_kb {
            Some(k) => if es.last().reclaimable {
                k as int
            } else {
                0
            },
            None => 0,
        }
    }
}

/// Law: the reclaimable disk never exceeds the disk the worktrees take.
pub proof fn lemma_reclaimable_within_total(es: Seq<WorktreeEntry>)
    ensures
        0 <= reclaimable_size(es) <= total_size(es),
    decreases es.len(),
{
    if es.len() > 0 {
        lemma_reclaimable_within_total(es.drop_last());
    }
}

/// A repository is audited when it has a linked worktree and its main
/// worktree (the first block) was not audited already.
pub open spec fn admits(seen: Seq<Seq<char>>, raws: Seq<RawWorktreeView>) -> bool {
    raws.len() > 1 && !seen.contains(raws[0].path)
}

/// Decides whether to audit a repository given its worktrees, and records its
/// main worktree in `seen` when it is audited: several worktrees of one
/// repository yield one audit, and repositories with no linked worktree none.
pub fn admit_repo(seen: &mut Vec<String>, raws: &Vec<RawWorktree>) -> (r: bool)
    ensures
        r == admits(old(seen).deep_view(), raw_views(raws@)),
        r ==> final(seen).deep_view() == old(seen).deep_view().push(raws@[0].path@),
        !r ==> final(seen).deep_view() == old(seen).deep_view(),
{
    if raws.len() <= 1 {
        return false;
    }
    let canon = raws[0].path.clone();
    assert(raw_views(raws@)[0] == raws@[0]@);
    if crate::text::contains_string(seen, &canon) {
        return false;
    }
    let ghost before = seen.deep_view();
    seen.push(canon);
    assert(seen.deep_view() =~= before.push(raws@[0].path@));
    true
}

/// Law: once a repository is audited, no other list of worktrees with the
/// same main worktree is audited again.
pub proof fn lemma_audited_once(
    seen: Seq<Seq<char>>,
    raws: Seq<RawWorktreeView>,
    again: Seq<RawWorktreeView>,
)
    requires
        admits(seen, raws),
        again.len() > 0,
        again[0].path == raws[0].path,
    ensures
        !admits(seen.push(raws[0].path), again),
{
    assert(seen.push(raws[0].path)[seen.len() as int] == raws[0].path);
}

/// Law: the recorded main worktrees never repeat.
pub proof fn lemma_seen_stays_distinct(seen: Seq<Seq<char>>, raws: Seq<RawWorktreeView>)
    requires
        seen.no_duplicates(),
        admits(seen, raws),
    ensures
        seen.push(raws[0].path).no_duplicates(),
{
    let s2 = seen.push(raws[0].path);
    assert forall|i: int, j: int| 0 <= i < s2.len() && 0 <= j < s2.len() && i != j implies s2[i]
        != s2[j] by {
        if i == seen.len() {
            assert(!seen.contains(raws[0].path));
            assert(s2[j] == seen[j]);
        } else if j == seen.len() {
            assert(!seen.contains(raws[0].path));
            assert(s2[i] == seen[i]);
        }
    }
}

/// Whether the sizes of the given worktrees add up within `u64`.
pub fn sizes_fit(entries: &Vec<WorktreeEntry>) -> (r: bool)
    ensures
        r == (total_size(entries@) <= u64::MAX),
{
    let mut total: u64 = 0;
    let mut i: usize = 0;
    while i < entries.len()
        invariant
            i <= entries.len(),
            total == total_size(entries@.take(i as int)),
        decreases entries.len() - i,
    {
        assert(entries@.take(i + 1).drop_last() =~= entries@.take(i as int));
        match entries[i].size_kb {
            Some(k) => {
                if total > u64::MAX - k {
                    proof {
                        lemma_total_size_prefix(entries@, i + 1);
                    }
                    return false;
                }
                total = total + k;
            },
            None => {},
        }
        i += 1;
    }
    assert(entries@.take(i as int) =~= entries@);
    true
}

/// The total of a prefix never exceeds the total.
pub proof fn lemma_total_size_prefix(es: Seq<WorktreeEntry>, k: int)
    requires
        0 <= k <= es.len(),
    ensures
        total_size(es.take(k)) <= total_size(es),
    decreases es.len() - k,
{
    if k < es.len() {
        lemma_total_size_prefix(es.drop_last(), k);
        assert(es.drop_last().take(k) =~= es.take(k));
    } else {
        assert(es.take(k) =~= es);
    }
}

/// A repository's audit from its analysed linked worktrees: their disk and
/// reclaimable disk totalled, and the worktrees listed reclaimable first, then
/// largest, then oldest. No repository without worktrees.
pub fn assemble_repo(
    parent_repo: String,
    default_branch: Option<String>,
    entries: Vec<WorktreeEntry>,
) -> (r: Option<WorktreeRepo>)
    requires
        total_size(entries@) <= u64::MAX,
    ensures
        (r is None) == (entries@.len() == 0),
        r matches Some(repo) ==> {
            &&& repo.parent_repo@ == parent_repo@
            &&& repo.default_branch.deep_view() == default_branch.deep_view()
            &&& repo.total_kb == total_size(entries@)
            &&& repo.reclaimable_kb == reclaimable_size(entries@)
            &&& repo.reclaimable_kb <= repo.total_kb
            &&& repo.total_kb == total_size(repo.worktrees@)
            &&& repo.reclaimable_kb == reclaimable_size(repo.worktrees@)
            &&& stably_sorted(
                |a: WorktreeEntry, b: WorktreeEntry| entry_before(a@, b@),
                entries@,
                repo.worktrees@,
            )
        },
{
    if entries.len() == 0 {
        return None;
    }
    let mut total_kb: u64 = 0;
    let mut reclaimable_kb: u64 = 0;
    let mut i: usize = 0;
    while i < entries.len()
        invariant
            i <= entries.len(),
            total_size(entries@) <= u64::MAX,
            total_kb == total_size(entries@.take(i as int)),
            reclaimable_kb == reclaimable_size(entries@.take(i as int)),
        decreases entries.len() - i,
    {
        assert(entries@.take(i + 1).drop_last() =~= entries@.take(i as int));
        proof {
            lemma_total_size_prefix(entries@, i + 1);
            lemma_reclaimable_within_total(entries@.take(i as int));
        }
        match entries[i].size_kb {
            Some(kb) => {
                total_kb = total_kb + kb;
                if entries[i].reclaimable {
                    reclaimable_kb = reclaimable_kb + kb;
                }
            },
            None => {},
        }
        i += 1;
    }
    assert(entries@.take(i as int) =~= entries@);
    proof {
        lemma_reclaimable_within_total(entries@);
    }
    let ghost listed = entries@;
    let mut worktrees = entries;
    sort_entries(&mut worktrees);
    let repo = WorktreeRepo { parent_repo, default_branch, worktrees, total_kb, reclaimable_kb };
    proof {
        lemma_totals_over_listed(repo, listed);
    }
    Some(repo)
}

/// The audit: the repositories with more reclaimable disk first, then those
/// with more disk.
pub fn finish_audit(repos: Vec<WorktreeRepo>, gh_available: bool) -> (r: WorktreeAudit)
    ensures
        r.gh_available == gh_available,
        stably_sorted(|a: WorktreeRepo, b: WorktreeRepo| repo_before(&a, &b), repos@, r.repos@),
{
    let mut repos = repos;
    sort_repos(&mut repos);
    WorktreeAudit { repos, gh_available }
}

/// Disk (KB) of one worktree, `0` when unknown.
pub open spec fn entry_kb(e: WorktreeEntry) -> int {
    match e.size_kb {
        Some(k) => k as int,
        None => 0,
    }
}

/// Reclaimable disk (KB) of one worktree.
pub open spec fn entry_reclaimable_kb(e: WorktreeEntry) -> int {
    if e.reclaimable {
        entry_kb(e)
    } else {
        0
    }
}

/// The sum of `f` over the worktrees.
pub open spec fn sum_by(es: Seq<WorktreeEntry>, f: spec_fn(WorktreeEntry) -> int) -> int
    decreases es.len(),
{
    if es.len() == 0 {
        0
    } else {
        sum_by(es.drop_last(), f) + f(es.last())
    }
}

proof fn lemma_sizes_are_sums(es: Seq<WorktreeEntry>)
    ensures
        total_size(es) == sum_by(es, |e: WorktreeEntry| entry_kb(e)),
        reclaimable_size(es) == sum_by(es, |e: WorktreeEntry| entry_reclaimable_kb(e)),
    decreases es.len(),
{
    if es.len() > 0 {
        lemma_sizes_are_sums(es.drop_last());
    }
}

proof fn lemma_sum_remove(es: Seq<WorktreeEntry>, j: int, f: spec_fn(WorktreeEntry) -> int)
    requires
        0 <= j < es.len(),
    ensures
        sum_by(es, f) == sum_by(es.remove(j), f) + f(es[j]),
    decreases es.len(),
{
    if j == es.len() - 1 {
        assert(es.remove(j) =~= es.drop_last());
    } else {
        lemma_sum_remove(es.drop_last(), j, f);
        assert(es.remove(j).drop_last() =~= es.drop_last().remove(j));
        assert(es.remove(j).last() == es.last());
    }
}

proof fn lemma_sum_permutation(
    old: Seq<WorktreeEntry>,
    new: Seq<WorktreeEntry>,
    p: Seq<int>,
    f: spec_fn(WorktreeEntry) -> int,
)
    requires
        is_permutation(p, old.len() as int),
        new.len() == old.len(),
        forall|i: int| 0 <= i < new.len() ==> new[i] == old[#[trigger] p[i]],
    ensures
        sum_by(new, f) == sum_by(old, f),
    decreases old.len(),
{
    let n = old.len() as int;
    if n > 0 {
        let j = p[n - 1];
        let old2 = old.remove(j);
        let new2 = new.drop_last();
        let p2 = Seq::new((n - 1) as nat, |i: int| if p[i] < j { p[i] } else { p[i] - 1 });
        assert forall|i: int| 0 <= i < n - 1 implies 0 <= #[trigger] p2[i] < n - 1 by {
            assert(p[i] != p[n - 1]);
        }
        assert forall|a: int, b: int| 0 <= a < b < n - 1 implies p2[a] != p2[b] by {
            assert(p[a] != p[b]);
            assert(p[a] != j && p[b] != j);
        }
        assert forall|i: int| 0 <= i < new2.len() implies new2[i] == old2[#[trigger] p2[i]] by {
            assert(p[i] != j);
            assert(new[i] == old[p[i]]);
        }
        lemma_sum_permutation(old2, new2, p2, f);
        lemma_sum_remove(old, j, f);
        assert(new[n - 1] == old[j]);
    }
}

/// Law: the disk totals of an audited repository are the sums over the
/// worktrees it lists.
pub proof fn lemma_totals_over_listed(repo: WorktreeRepo, entries: Seq<WorktreeEntry>)
    requires
        repo.total_kb == total_size(entries),
        repo.reclaimable_kb == reclaimable_size(entries),
        stably_sorted(
            |a: WorktreeEntry, b: WorktreeEntry| entry_before(a@, b@),
            entries,
            repo.worktrees@,
        ),
    ensures
        repo.total_kb == total_size(repo.worktrees@),
        repo.reclaimable_kb == reclaimable_size(repo.worktrees@),
{
    let new = repo.worktrees@;
    let p = choose|p: Seq<int>|
        #[trigger] is_permutation(p, entries.len() as int) && (forall|i: int|
            0 <= i < new.len() ==> new[i] == entries[#[trigger] p[i]]) && (forall|i: int, j: int|
            0 <= i < j < new.len() && !entry_before(new[i]@, new[j]@) ==> p[i] < p[j]);
    lemma_sizes_are_sums(entries);
    lemma_sizes_are_sums(new);
    lemma_sum_permutation(entries, new, p, |e: WorktreeEntry| entry_kb(e));
    lemma_sum_permutation(entries, new, p, |e: WorktreeEntry| entry_reclaimable_kb(e));
}

/// Whether pull-request data was had: on a full scan, when at least one
/// `gh pr list` run succeeded (`listing_ok`: each run's success). No separate
/// login check is made; `gh`'s availability is read off the listing itself.
pub fn gh_available(include_sizes: bool, listing_ok: &Vec<bool>) -> (r: bool)
    ensures
        r == (include_sizes && listing_ok@.contains(true)),
{
    if !include_sizes {
        return false;
    }
    let mut i: usize = 0;
    while i < listing_ok.len()
        invariant
            include_sizes,
            i <= listing_ok.len(),
            forall|k: int| 0 <= k < i ==> !listing_ok@[k],
        decreases listing_ok.len() - i,
    {
        if listing_ok[i] {
            assert(listing_ok@[i as int] == true);
            assert(listing_ok@.contains(true));
            return true;
        }
        i += 1;
    }
    false
}

/// A repository to audit: its worktrees (the main one first) and whether to
/// ask `gh` for its merged pull requests (on a full scan only).
pub struct RepoScan {
    pub raws: Vec<RawWorktree>,
    pub fetch_prs: bool,
}

/// What the audit does with a root, given `git worktree list --porcelain`'s
/// output there (`None`: git failed, so it is not a repository): skip it, or
/// audit the repository, recording its main worktree in `seen`.
pub fn scan_repo(seen: &mut Vec<String>, porcelain: Option<String>, include_sizes: bool) -> (r:
    Option<RepoScan>)
    ensures
        porcelain is None ==> r is None && final(seen).deep_view() == old(seen).deep_view(),
        porcelain matches Some(t) ==> {
            let raws = porcelain_worktrees(t@);
            &&& (r is Some) == admits(old(seen).deep_view(), raws)
            &&& r matches Some(scan) ==> raw_views(scan.raws@) == raws && scan.fetch_prs
                == include_sizes && final(seen).deep_view() == old(seen).deep_view().push(
                raws[0].path,
            )
            &&& r is None ==> final(seen).deep_view() == old(seen).deep_view()
        },
{
    match porcelain {
        None => None,
        Some(text) => {
            let raws = parse_porcelain(text.as_str());
            if admit_repo(seen, &raws) {
                assert(raw_views(raws@)[0] == raws@[0]@);
                Some(RepoScan { raws, fetch_prs: include_sizes })
            } else {
                None
            }
        },
    }
}

/// The worktrees that the analyses of repository `i` produced, in order;
/// an analysis that yielded nothing (its thread failed) is dropped.
pub open spec fn entries_of(results: Seq<Option<(usize, WorktreeEntry)>>, i: int) -> Seq<
    WorktreeEntry,
>
    decreases results.len(),
{
    if results.len() == 0 {
        seq![]
    } else {
        entries_of(results.drop_last(), i) + match results.last() {
            Some((j, e)) => if j == i {
                seq![e]
            } else {
                Seq::<WorktreeEntry>::empty()
            },
            None => Seq::<WorktreeEntry>::empty(),
        }
    }
}

/// The analysed worktrees grouped by repository: `results[k]` is
/// `Some((repository index, entry))`, or `None` for an analysis that failed.
pub fn group_entries(n: usize, results: Vec<Option<(usize, WorktreeEntry)>>) -> (r: Vec<
    Vec<WorktreeEntry>,
>)
    ensures
        r@.len() == n,
        forall|i: int| 0 <= i < n ==> (#[trigger] r@[i])@ == entries_of(results@, i),
{
    let mut groups: Vec<Vec<WorktreeEntry>> = Vec::new();
    let mut i: usize = 0;
    while i < n
        invariant
            i <= n,
            groups@.len() == i,
            forall|k: int| 0 <= k < i ==> (#[trigger] groups@[k])@ == Seq::<WorktreeEntry>::empty(),
        decreases n - i,
    {
        groups.push(Vec::new());
        i += 1;
    }
    let ghost all = results@;
    let mut rest = results;
    let ghost mut taken: Seq<Option<(usize, WorktreeEntry)>> = Seq::empty();
    proof {
        assert(all =~= taken + rest@);
    }
    while rest.len() > 0
        invariant
            groups@.len() == n,
            all == taken + rest@,
            forall|k: int| 0 <= k < n ==> (#[trigger] groups@[k])@ == entries_of(taken, k),
        decreases rest.len(),
    {
        let ghost before = taken;
        let ghost rest0 = rest@;
        let item = rest.remove(0);
        let ghost it = item;
        assert(all =~= before.push(it) + rest@) by {
            assert(rest0 =~= seq![it] + rest@);
        }
        assert(before.push(it).drop_last() =~= before);
        match item {
            Some((j, e)) => {
                if j < n {
                    let ghost g = groups@;
                    let mut bucket = groups.remove(j);
                    bucket.push(e);
                    groups.insert(j, bucket);
                    assert forall|k: int| 0 <= k < n implies (#[trigger] groups@[k])@ == entries_of(
                        before.push(it),
                        k,
                    ) by {
                        if k != j {
                            assert(groups@[k] == g[k]);
                        }
                    }
                }
            },
            None => {},
        }
        proof {
            taken = before.push(it);
        }
    }
    proof {
        assert(taken + rest@ =~= taken);
    }
    groups
}

/// `job` names a linked worktree: repository `job.0`, worktree `job.1`, where
/// `sizes[i]` counts repository `i`'s worktrees, the main one first (index 0).
pub open spec fn is_linked_job(sizes: Seq<usize>, job: (usize, usize)) -> bool {
    job.0 < sizes.len() && 1 <= job.1 < sizes[job.0 as int]
}

/// `a` comes before `b`: by repository, then by worktree.
pub open spec fn job_before(a: (usize, usize), b: (usize, usize)) -> bool {
    a.0 < b.0 || (a.0 == b.0 && a.1 < b.1)
}

/// The worktrees to analyse, as `(repository, worktree)` indices: every
/// linked worktree of every repository exactly once, in order, and never a
/// repository's main worktree.
pub fn analysis_jobs(sizes: &Vec<usize>) -> (r: Vec<(usize, usize)>)
    ensures
        forall|j: int| 0 <= j < r@.len() ==> is_linked_job(sizes@, #[trigger] r@[j]),
        forall|a: int, b: int| 0 <= a < b < r@.len() ==> job_before(r@[a], r@[b]),
        forall|job: (usize, usize)| is_linked_job(sizes@, job) ==> r@.contains(job),
{
    let mut r: Vec<(usize, usize)> = Vec::new();
    let mut i: usize = 0;
    while i < sizes.len()
        invariant
            i <= sizes.len(),
            forall|j: int| 0 <= j < r@.len() ==> is_linked_job(sizes@, #[trigger] r@[j]),
            forall|j: int| 0 <= j < r@.len() ==> (#[trigger] r@[j]).0 < i,
            forall|a: int, b: int| 0 <= a < b < r@.len() ==> job_before(r@[a], r@[b]),
            forall|job: (usize, usize)|
                is_linked_job(sizes@, job) && job.0 < i ==> r@.contains(job),
        decreases sizes.len() - i,
    {
        let mut k: usize = 1;
        while k < sizes[i]
            invariant
                i < sizes.len(),
                1 <= k,
                forall|j: int| 0 <= j < r@.len() ==> is_linked_job(sizes@, #[trigger] r@[j]),
                forall|j: int|
                    0 <= j < r@.len() ==> (#[trigger] r@[j]).0 < i || (r@[j].0 == i && r@[j].1 < k),
                forall|a: int, b: int| 0 <= a < b < r@.len() ==> job_before(r@[a], r@[b]),
                forall|job: (usize, usize)|
                    is_linked_job(sizes@, job) && (job.0 < i || (job.0 == i && job.1 < k))
                        ==> r@.contains(job),
            decreases sizes[i as int] - k,
        {
            let ghost before = r@;
            r.push((i, k));
            assert forall|j: int| 0 <= j < r@.len() implies is_linked_job(sizes@, #[trigger] r@[j]) by {
                if j < before.len() {
                    assert(r@[j] == before[j]);
                }
            }
            assert forall|a: int, b: int| 0 <= a < b < r@.len() implies job_before(r@[a], r@[b]) by {
                if b < before.len() {
                    assert(r@[a] == before[a] && r@[b] == before[b]);
                } else {
                    assert(r@[a] == before[a]);
                }
            }
            assert forall|job: (usize, usize)|
                is_linked_job(sizes@, job) && (job.0 < i || (job.0 == i && job.1 < k + 1))
                    implies r@.contains(job) by {
                if job.0 == i && job.1 == k {
                    assert(r@[before.len() as int] == job);
                } else {
                    assert(before.contains(job));
                    let w = choose|w: int| 0 <= w < before.len() && before[w] == job;
                    assert(r@[w] == job);
                }
            }
            k += 1;
        }
        i += 1;
    }
    r
}

/// Law: whether a repository is audited depends only on how many worktrees
/// it has and on its main worktree's path, never on the linked worktrees'
/// branches, HEADs, or prunable and locked marks: a repository with a linked
/// worktree whose main worktree was not seen is audited, and two listings of
/// the same length with the same main worktree are judged alike.
pub proof fn lemma_admission_by_main_only(
    seen: Seq<Seq<char>>,
    raws: Seq<RawWorktreeView>,
    other: Seq<RawWorktreeView>,
)
    ensures
        raws.len() > 1 && !seen.contains(raws[0].path) ==> admits(seen, raws),
        raws.len() <= 1 ==> !admits(seen, raws),
        raws.len() > 0 && seen.contains(raws[0].path) ==> !admits(seen, raws),
        other.len() == raws.len() && (raws.len() > 0 ==> other[0].path == raws[0].path) ==> admits(
            seen,
            other,
        ) == admits(seen, raws),
{
}

} // verus!
