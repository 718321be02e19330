use arrow::analyze::WorktreeEntry;
use arrow::audit::{
    admit_repo, analysis_jobs, assemble_repo, finish_audit, gh_available, group_entries, scan_repo, sizes_fit,
    WorktreeRepo,
};
use arrow::porcelain::parse_porcelain;
use arrow::report::{audit_totals, entry_mark, reclaimable_count, sizes_measured, totals_fit, EntryMark};

fn entry(name: &str, reclaimable: bool, size: Option<u64>, age: Option<i64>) -> WorktreeEntry {
    WorktreeEntry {
        path: format!("/w/{name}"),
        name: name.to_string(),
        branch: None,
        last_commit: None,
        age_days: age,
        merged: reclaimable,
        undiverged: false,
        on_default: false,
        pr_merged: None,
        prunable: false,
        locked: false,
        stale: false,
        size_kb: size,
        reasons: vec![],
        reclaimable,
        command: String::new(),
    }
}

#[test]
fn repos_are_audited_once() {
    let mut seen: Vec<String> = Vec::new();
    let two = parse_porcelain("worktree /r\n\nworktree /r-wt\n");
    let one = parse_porcelain("worktree /solo\n");
    assert!(admit_repo(&mut seen, &two));
    assert!(!admit_repo(&mut seen, &two));
    assert!(!admit_repo(&mut seen, &one));
    assert!(!admit_repo(&mut seen, &Vec::new()));
    assert_eq!(seen, vec!["/r".to_string()]);
}

#[test]
fn repo_totals_and_order() {
    let entries = vec![
        entry("a", false, Some(100), Some(5)),
        entry("b", true, Some(10), Some(1)),
        entry("c", false, Some(100), Some(50)),
        entry("d", false, None, Some(99)),
        entry("e", true, Some(30), None),
    ];
    assert!(sizes_fit(&entries));
    let repo = assemble_repo("/r".to_string(), Some("main".to_string()), entries).unwrap();
    assert_eq!(repo.total_kb, 240);
    assert_eq!(repo.reclaimable_kb, 40);
    let order: Vec<&str> = repo.worktrees.iter().map(|e| e.name.as_str()).collect();
    assert_eq!(order, vec!["e", "b", "c", "a", "d"]);
    assert_eq!(reclaimable_count(&repo), 2);
    let listed: u64 = repo.worktrees.iter().filter_map(|e| e.size_kb).sum();
    assert_eq!(listed, repo.total_kb);
    assert!(assemble_repo("/r".to_string(), None, vec![]).is_none());
}

#[test]
fn ties_keep_their_order() {
    let entries = vec![entry("x", false, Some(1), None), entry("y", false, Some(1), None)];
    let repo = assemble_repo("/r".to_string(), None, entries).unwrap();
    assert_eq!(repo.worktrees[0].name, "x");
    assert_eq!(repo.worktrees[1].name, "y");
}

#[test]
fn sizes_that_overflow_are_detected() {
    let entries = vec![entry("a", false, Some(u64::MAX), None), entry("b", false, Some(1), None)];
    assert!(!sizes_fit(&entries));
}

fn repo(name: &str, total: u64, reclaim: u64) -> WorktreeRepo {
    WorktreeRepo {
        parent_repo: name.to_string(),
        default_branch: None,
        worktrees: vec![entry("w", reclaim > 0, Some(total), None)],
        total_kb: total,
        reclaimable_kb: reclaim,
    }
}

#[test]
fn audit_orders_repos_and_totals() {
    let audit = finish_audit(vec![repo("p", 500, 0), repo("q", 100, 50), repo("r", 900, 50)], true);
    assert!(audit.gh_available);
    let order: Vec<&str> = audit.repos.iter().map(|r| r.parent_repo.as_str()).collect();
    assert_eq!(order, vec!["r", "q", "p"]);
    assert!(sizes_measured(&audit));
    assert!(totals_fit(&audit));
    let t = audit_totals(&audit);
    assert_eq!((t.total_kb, t.reclaimable_kb), (1500, 100));
    let big = finish_audit(vec![repo("a", u64::MAX, 0), repo("b", 1, 0)], false);
    assert!(!totals_fit(&big));
}

#[test]
fn fast_scan_is_not_measured() {
    let mut r = repo("p", 0, 0);
    r.worktrees[0].size_kb = None;
    let audit = finish_audit(vec![r], false);
    assert!(!sizes_measured(&audit));
}

#[test]
fn marks() {
    let mut e = entry("a", true, None, None);
    e.stale = true;
    assert!(entry_mark(&e) == EntryMark::Reclaimable);
    e.reclaimable = false;
    assert!(entry_mark(&e) == EntryMark::Stale);
    e.stale = false;
    assert!(entry_mark(&e) == EntryMark::Plain);
}

#[test]
fn scan_skips_failed_and_seen_roots() {
    let mut seen: Vec<String> = Vec::new();
    assert!(scan_repo(&mut seen, None, true).is_none());
    let scan = scan_repo(&mut seen, Some("worktree /r\n\nworktree /r-wt\n".to_string()), true).unwrap();
    assert_eq!(scan.raws.len(), 2);
    assert!(scan.fetch_prs);
    assert!(scan_repo(&mut seen, Some("worktree /r\n\nworktree /other\n".to_string()), false).is_none());
    let scan = scan_repo(&mut seen, Some("worktree /s\n\nworktree /s-wt\n".to_string()), false).unwrap();
    assert!(!scan.fetch_prs);
    assert_eq!(seen, vec!["/r".to_string(), "/s".to_string()]);
}

#[test]
fn gh_availability_comes_from_the_listing() {
    assert!(gh_available(true, &vec![false, true]));
    assert!(!gh_available(true, &vec![false, false]));
    assert!(!gh_available(true, &vec![]));
    assert!(!gh_available(false, &vec![true]));
}

#[test]
fn jobs_are_the_linked_worktrees() {
    assert_eq!(analysis_jobs(&vec![3, 1, 0, 2]), vec![(0, 1), (0, 2), (3, 1)]);
    assert!(analysis_jobs(&vec![]).is_empty());
}

#[test]
fn entries_grouped_by_repo_failures_dropped() {
    let results = vec![
        Some((0, entry("a", false, None, None))),
        None,
        Some((1, entry("b", false, None, None))),
        Some((0, entry("c", false, None, None))),
        Some((7, entry("z", false, None, None))),
    ];
    let groups = group_entries(2, results);
    assert_eq!(groups.len(), 2);
    let g0: Vec<&str> = groups[0].iter().map(|e| e.name.as_str()).collect();
    let g1: Vec<&str> = groups[1].iter().map(|e| e.name.as_str()).collect();
    assert_eq!(g0, vec!["a", "c"]);
    assert_eq!(g1, vec!["b"]);
}
