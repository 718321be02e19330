//! What the terminal report of an audit summarises.
use vstd::prelude::*;

use crate::analyze::WorktreeEntry;
use crate::audit::{WorktreeAudit, WorktreeRepo};

verus! {

/// The mark a worktree gets in the report.
#[derive(PartialEq, Eq, Structural)]
pub enum EntryMark {
    /// Safe to remove.
    Reclaimable,
    /// Not reclaimable, but no commit for a long time.
    Stale,
    /// Neither.
    Plain,
}

/// A worktree's mark: reclaimable wins over stale.
pub open spec fn mark_of(reclaimable: bool, stale: bool) -> EntryMark {
    if reclaimable {
        EntryMark::Reclaimable
    } else if stale {
        EntryMark::Stale
    } else {
        EntryMark::Plain
    }
}

/// The mark of a worktree in the report.
pub fn entry_mark(e: &WorktreeEntry) -> (r: EntryMark)
    ensures
        r == mark_of(e.reclaimable, e.stale),
{
    if e.reclaimable {
        EntryMark::Reclaimable
    } else if e.stale {
        EntryMark::Stale
    } else {
        EntryMark::Plain
    }
}

/// Number of reclaimable worktrees among `es`.
pub open spec fn count_reclaimable(es: Seq<WorktreeEntry>) -> nat
    decreases es.len(),
{
    if es.len() == 0 {
        0
    } else {
        count_reclaimable(es.drop_last()) + if es.last().reclaimable {
            1nat
        } else {
            0nat
        }
    }
}

proof fn lemma_count_reclaimable_bound(es: Seq<WorktreeEntry>)
    ensures
        count_reclaimable(es) <= es.len(),
    decreases es.len(),
{
    if es.len() > 0 {
        lemma_count_reclaimable_bound(es.drop_last());
    }
}

/// How many of a repository's worktrees are reclaimable.
pub fn reclaimable_count(repo: &WorktreeRepo) -> (r: usize)
    ensures
        r == count_reclaimable(repo.worktrees@),
{
    let mut n: usize = 0;
    let mut i: usize = 0;
    while i < repo.worktrees.len()
        invariant
            i <= repo.worktrees.len(),
            n == count_reclaimable(repo.worktrees@.take(i as int)),
        decreases repo.worktrees.len() - i,
    {
        assert(repo.worktrees@.take(i + 1).drop_last() =~= repo.worktrees@.take(i as int));
        proof {
            lemma_count_reclaimable_bound(repo.worktrees@.take(i as int));
        }
        if repo.worktrees[i].reclaimable {
            n = n + 1;
        }
        i += 1;
    }
    assert(repo.worktrees@.take(i as int) =~= repo.worktrees@);
    n
}

/// Some worktree of the audit has a measured size.
pub open spec fn any_measured(audit: WorktreeAudit) -> bool {
    exists|i: int, j: int|
        0 <= i < audit.repos@.len() && 0 <= j < audit.repos@[i].worktrees@.len()
            && (#[trigger] audit.repos@[i].worktrees@[j]).size_kb is Some
}

/// Whether sizes were measured: the report shows disk totals only then, so a
/// fast scan never claims "0 KB".
pub fn sizes_measured(audit: &WorktreeAudit) -> (r: bool)
    ensures
        r == any_measured(*audit),
{
    let mut i: usize = 0;
    while i < audit.repos.len()
        invariant
            i <= audit.repos.len(),
            forall|a: int, b: int|
                0 <= a < i && 0 <= b < audit.repos@[a].worktrees@.len() ==> (
                #[trigger] audit.repos@[a].worktrees@[b]).size_kb is None,
        decreases audit.repos.len() - i,
    {
        let repo = &audit.repos[i];
        let mut j: usize = 0;
        while j < repo.worktrees.len()
            invariant
                i < audit.repos.len(),
                *repo == audit.repos@[i as int],
                j <= repo.worktrees.len(),
                forall|b: int| 0 <= b < j ==> (#[trigger] repo.worktrees@[b]).size_kb is None,
            decreases repo.worktrees.len() - j,
        {
            if repo.worktrees[j].size_kb.is_some() {
                assert(audit.repos@[i as int].worktrees@[j as int].size_kb is Some);
                return true;
            }
            j += 1;
        }
        i += 1;
    }
    false
}

/// Sum of the repositories' disk totals.
pub open spec fn grand_total(repos: Seq<WorktreeRepo>) -> int
    decreases repos.len(),
{
    if repos.len() == 0 {
        0
    } else {
        grand_total(repos.drop_last()) + repos.last().total_kb
    }
}

/// Sum of the repositories' reclaimable disk.
pub open spec fn grand_reclaimable(repos: Seq<WorktreeRepo>) -> int
    decreases repos.len(),
{
    if repos.len() == 0 {
        0
    } else {
        grand_reclaimable(repos.drop_last()) + repos.last().reclaimable_kb
    }
}

/// The disk over all audited repositories.
pub struct AuditTotals {
    pub total_kb: u64,
    pub reclaimable_kb: u64,
}

proof fn lemma_grand_prefix(repos: Seq<WorktreeRepo>, k: int)
    requires
        0 <= k <= repos.len(),
    ensures
        grand_total(repos.take(k)) <= grand_total(repos),
        grand_reclaimable(repos.take(k)) <= grand_reclaimable(repos),
        0 <= grand_total(repos.take(k)),
        0 <= grand_reclaimable(repos.take(k)),
    decreases repos.len() - k,
{
    if k < repos.len() {
        lemma_grand_prefix(repos.drop_last(), k);
        assert(repos.drop_last().take(k) =~= repos.take(k));
    } else {
        assert(repos.take(k) =~= repos);
        lemma_grand_nonneg(repos);
    }
}

proof fn lemma_grand_nonneg(repos: Seq<WorktreeRepo>)
    ensures
        0 <= grand_total(repos),
        0 <= grand_reclaimable(repos),
    decreases repos.len(),
{
    if repos.len() > 0 {
        lemma_grand_nonneg(repos.drop_last());
    }
}

/// Whether the audit's totals add up within `u64`.
pub fn totals_fit(audit: &WorktreeAudit) -> (r: bool)
    ensures
        r == (grand_total(audit.repos@) <= u64::MAX && grand_reclaimable(audit.repos@) <= u64::MAX),
{
    let mut t: u128 = 0;
    let mut c: u128 = 0;
    let mut i: usize = 0;
    while i < audit.repos.len()
        invariant
            i <= audit.repos.len(),
            t == grand_total(audit.repos@.take(i as int)),
            c == grand_reclaimable(audit.repos@.take(i as int)),
            t <= (i as int) * (u64::MAX as int),
            c <= (i as int) * (u64::MAX as int),
        decreases audit.repos.len() - i,
    {
        assert(audit.repos@.take(i + 1).drop_last() =~= audit.repos@.take(i as int));
        assert(i < usize::MAX);
        assert((i as int) * (u64::MAX as int) + (u64::MAX as int) == ((i + 1) as int) * (
        u64::MAX as int)) by (nonlinear_arith);
        assert(((i + 1) as int) * (u64::MAX as int) <= (usize::MAX as int) * (u64::MAX as int))
            by (nonlinear_arith)
            requires
                i + 1 <= usize::MAX,
        ;
        assert((usize::MAX as int) * (u64::MAX as int) <= u128::MAX) by (nonlinear_arith)
            requires
                usize::MAX <= u64::MAX,
        ;
        t = t + audit.repos[i].total_kb as u128;
        c = c + audit.repos[i].reclaimable_kb as u128;
        i += 1;
    }
    assert(audit.repos@.take(i as int) =~= audit.repos@);
    t <= u64::MAX as u128 && c <= u64::MAX as u128
}

/// The disk over all audited repositories, and the part of it reclaimable.
pub fn audit_totals(audit: &WorktreeAudit) -> (r: AuditTotals)
    requires
        grand_total(audit.repos@) <= u64::MAX,
        grand_reclaimable(audit.repos@) <= u64::MAX,
    ensures
        r.total_kb == grand_total(audit.repos@),
        r.reclaimable_kb == grand_reclaimable(audit.repos@),
{
    let mut t: u64 = 0;
    let mut c: u64 = 0;
    let mut i: usize = 0;
    while i < audit.repos.len()
        invariant
            i <= audit.repos.len(),
            grand_total(audit.repos@) <= u64::MAX,
            grand_reclaimable(audit.repos@) <= u64::MAX,
            t == grand_total(audit.repos@.take(i as int)),
            c == grand_reclaimable(audit.repos@.take(i as int)),
        decreases audit.repos.len() - i,
    {
        assert(audit.repos@.take(i + 1).drop_last() =~= audit.repos@.take(i as int));
        proof {
            lemma_grand_prefix(audit.repos@, i + 1);
        }
        t = t + audit.repos[i].total_kb;
        c = c + audit.repos[i].reclaimable_kb;
        i += 1;
    }
    assert(audit.repos@.take(i as int) =~= audit.repos@);
    AuditTotals { total_kb: t, reclaimable_kb: c }
}

/// Law: every reclaimable worktree gets the reclaimable mark, stale or not;
/// a worktree that is not reclaimable gets the stale mark exactly when it is
/// stale, and the plain mark otherwise.
pub proof fn lemma_marks(reclaimable: bool, stale: bool)
    ensures
        reclaimable ==> mark_of(reclaimable, stale) == EntryMark::Reclaimable,
        !reclaimable && stale ==> mark_of(reclaimable, stale) == EntryMark::Stale,
        !reclaimable && !stale ==> mark_of(reclaimable, stale) == EntryMark::Plain,
        mark_of(reclaimable, stale) == EntryMark::Reclaimable ==> reclaimable,
{
}

} // verus!
