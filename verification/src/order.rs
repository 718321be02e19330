//! The order in which the audit lists worktrees and repositories, and the
//! sorts that put them in it.
use vstd::prelude::*;

use std::cmp::Ordering;

use crate::analyze::{WorktreeEntry, WorktreeEntryView};
use crate::audit::{stably_sorted, WorktreeRepo};

verus! {

/// `x` ranks above `y` where unknown ranks below any value.
pub open spec fn size_above(x: Option<u64>, y: Option<u64>) -> bool {
    match (x, y) {
        (Some(a), Some(b)) => a > b,
        (Some(_), None) => true,
        _ => false,
    }
}

/// `x` ranks above `y` where unknown ranks below any value.
pub open spec fn age_above(x: Option<i64>, y: Option<i64>) -> bool {
    match (x, y) {
        (Some(a), Some(b)) => a > b,
        (Some(_), None) => true,
        _ => false,
    }
}

/// `a` is listed before `b`: reclaimable first, then larger, then older.
pub open spec fn entry_before(a: WorktreeEntryView, b: WorktreeEntryView) -> bool {
    if a.reclaimable != b.reclaimable {
        a.reclaimable
    } else if a.size_kb != b.size_kb {
        size_above(a.size_kb, b.size_kb)
    } else if a.age_days != b.age_days {
        age_above(a.age_days, b.age_days)
    } else {
        false
    }
}

/// `a` is listed before `b`: more reclaimable disk first, then more disk.
pub open spec fn repo_before(a: &WorktreeRepo, b: &WorktreeRepo) -> bool {
    if a.reclaimable_kb != b.reclaimable_kb {
        a.reclaimable_kb > b.reclaimable_kb
    } else {
        a.total_kb > b.total_kb
    }
}

/// The order of two entries for sorting (`Less`: `a` comes first).
pub fn entry_order(a: &WorktreeEntry, b: &WorktreeEntry) -> (r: Ordering)
    ensures
        (r == Ordering::Less) == entry_before(a@, b@),
        (r == Ordering::Greater) == entry_before(b@, a@),
{
    if a.reclaimable != b.reclaimable {
        return if a.reclaimable {
            Ordering::Less
        } else {
            Ordering::Greater
        };
    }
    match (a.size_kb, b.size_kb) {
        (Some(x), Some(y)) => {
            if x > y {
                return Ordering::Less;
            }
            if x < y {
                return Ordering::Greater;
            }
        },
        (Some(_), None) => {
            return Ordering::Less;
        },
        (None, Some(_)) => {
            return Ordering::Greater;
        },
        (None, None) => {},
    }
    match (a.age_days, b.age_days) {
        (Some(x), Some(y)) => {
            if x > y {
                Ordering::Less
            } else if x < y {
                Ordering::Greater
            } else {
                Ordering::Equal
            }
        },
        (Some(_), None) => Ordering::Less,
        (None, Some(_)) => Ordering::Greater,
        (None, None) => Ordering::Equal,
    }
}

/// The order of two repositories for sorting (`Less`: `a` comes first).
pub fn repo_order(a: &WorktreeRepo, b: &WorktreeRepo) -> (r: Ordering)
    ensures
        (r == Ordering::Less) == repo_before(a, b),
        (r == Ordering::Greater) == repo_before(b, a),
{
    if a.reclaimable_kb > b.reclaimable_kb {
        Ordering::Less
    } else if a.reclaimable_kb < b.reclaimable_kb {
        Ordering::Greater
    } else if a.total_kb > b.total_kb {
        Ordering::Less
    } else if a.total_kb < b.total_kb {
        Ordering::Greater
    } else {
        Ordering::Equal
    }
}

/// Calls `slice::sort_by` with [`entry_order`], a total order (proved by its
/// contract). std documents `sort_by` as a stable sort: the result is the
/// same entries, ordered by the comparator, equal ones in their old order.
#[verifier::external_body]
pub(crate) fn sort_entries(v: &mut Vec<WorktreeEntry>)
    ensures
        stably_sorted(
            |a: WorktreeEntry, b: WorktreeEntry| entry_before(a@, b@),
            old(v)@,
            final(v)@,
        ),
{
    v.sort_by(|a, b| entry_order(a, b));
}

/// Calls `slice::sort_by` with [`repo_order`], a total order (proved by its
/// contract). std documents `sort_by` as a stable sort: the result is the
/// same repositories, ordered by the comparator, equal ones in their old order.
#[verifier::external_body]
pub(crate) fn sort_repos(v: &mut Vec<WorktreeRepo>)
    ensures
        stably_sorted(|a: WorktreeRepo, b: WorktreeRepo| repo_before(&a, &b), old(v)@, final(v)@),
{
    v.sort_by(|a, b| repo_order(a, b));
}

/// Law: repositories with more reclaimable disk come first; between two with
/// the same reclaimable disk, whatever it is, the one with more disk comes
/// first; two with equal amounts of both tie.
pub proof fn lemma_repo_order(a: WorktreeRepo, b: WorktreeRepo)
    ensures
        a.reclaimable_kb > b.reclaimable_kb ==> repo_before(&a, &b) && !repo_before(&b, &a),
        a.reclaimable_kb == b.reclaimable_kb && a.total_kb > b.total_kb ==> repo_before(&a, &b)
            && !repo_before(&b, &a),
        a.reclaimable_kb == b.reclaimable_kb && a.total_kb == b.total_kb ==> !repo_before(&a, &b)
            && !repo_before(&b, &a),
{
}

/// Law: reclaimable worktrees come before the others; among worktrees alike in
/// that, a known larger size first (an unknown size last); among those alike
/// in size too, an older last commit first (an unknown age last).
pub proof fn lemma_entry_order(a: WorktreeEntryView, b: WorktreeEntryView)
    ensures
        a.reclaimable && !b.reclaimable ==> entry_before(a, b) && !entry_before(b, a),
        a.reclaimable == b.reclaimable && a.size_kb is Some && (b.size_kb is None || a.size_kb->0
            > b.size_kb->0) ==> entry_before(a, b) && !entry_before(b, a),
        a.reclaimable == b.reclaimable && a.size_kb == b.size_kb && a.age_days is Some && (
        b.age_days is None || a.age_days->0 > b.age_days->0) ==> entry_before(a, b)
            && !entry_before(b, a),
        a.reclaimable == b.reclaimable && a.size_kb == b.size_kb && a.age_days == b.age_days
            ==> !entry_before(a, b) && !entry_before(b, a),
{
}

} // verus!
