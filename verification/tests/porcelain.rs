use arrow::porcelain::parse_porcelain;

const LISTING: &str = "worktree /home/u/repo\nHEAD 1111\nbranch refs/heads/main\n\nworktree /home/u/wt-feature\nHEAD 2222\nbranch refs/heads/feature/x\n\nworktree /home/u/wt-gone\nHEAD 3333\ndetached\nprunable gitdir file points to non-existent location\n\n";

#[test]
fn parses_three_blocks() {
    let ws = parse_porcelain(LISTING);
    assert_eq!(ws.len(), 3);
    assert_eq!(ws[0].path, "/home/u/repo");
    assert_eq!(ws[0].head.as_deref(), Some("1111"));
    assert_eq!(ws[0].branch.as_deref(), Some("main"));
    assert!(!ws[0].prunable);
    assert_eq!(ws[1].path, "/home/u/wt-feature");
    assert_eq!(ws[1].branch.as_deref(), Some("feature/x"));
    assert_eq!(ws[2].path, "/home/u/wt-gone");
    assert_eq!(ws[2].head.as_deref(), Some("3333"));
    assert_eq!(ws[2].branch, None);
    assert!(ws[2].prunable);
}

#[test]
fn bare_prunable_line_and_no_final_blank() {
    let ws = parse_porcelain("worktree /a\nprunable\nworktree /b\nHEAD 9");
    assert_eq!(ws.len(), 2);
    assert!(ws[0].prunable);
    assert_eq!(ws[1].path, "/b");
    assert_eq!(ws[1].head.as_deref(), Some("9"));
    assert!(!ws[1].prunable);
}

#[test]
fn crlf_lines_and_stray_attributes() {
    let ws = parse_porcelain("HEAD ffff\r\nworktree /r\r\nbranch refs/heads/dev\r\n\r\n");
    assert_eq!(ws.len(), 1);
    assert_eq!(ws[0].path, "/r");
    assert_eq!(ws[0].head, None);
    assert_eq!(ws[0].branch.as_deref(), Some("dev"));
}

#[test]
fn only_one_refs_heads_prefix_is_removed() {
    let ws = parse_porcelain("worktree /a\nbranch refs/heads/refs/heads/x\n");
    assert_eq!(ws[0].branch.as_deref(), Some("refs/heads/x"));
    let ws = parse_porcelain("worktree /a\nbranch feature/y\n");
    assert_eq!(ws[0].branch.as_deref(), Some("feature/y"));
}

#[test]
fn locked_lines_are_read() {
    let ws = parse_porcelain("worktree /a\n\nworktree /b\nlocked\n\nworktree /c\nlocked agent at work\n\nworktree /d\nlockedx\n");
    let locked: Vec<bool> = ws.iter().map(|w| w.locked).collect();
    assert_eq!(locked, vec![false, true, true, false]);
}

#[test]
fn prunable_prefix_needs_a_space() {
    let ws = parse_porcelain("worktree /r\nprunablex\n");
    assert!(!ws[0].prunable);
}

#[test]
fn one_record_per_worktree_line() {
    let text = "worktree /a\n\n\nworktree /b\nworktree /c\n\nlocked\n";
    let ws = parse_porcelain(text);
    let headers = text.lines().filter(|l| l.starts_with("worktree ")).count();
    assert_eq!(ws.len(), headers);
    let paths: Vec<&str> = ws.iter().map(|w| w.path.as_str()).collect();
    assert_eq!(paths, vec!["/a", "/b", "/c"]);
    assert!(parse_porcelain("").is_empty());
}
