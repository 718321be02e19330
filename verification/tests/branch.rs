use arrow::branch::{default_branch, DefaultBranchStep};

fn resolved(step: DefaultBranchStep) -> Option<(String, String)> {
    match step {
        DefaultBranchStep::Resolved(r) => r,
        DefaultBranchStep::ProbeLocal(c) => panic!("unexpected probe of {c}"),
    }
}

fn probe(step: DefaultBranchStep) -> String {
    match step {
        DefaultBranchStep::ProbeLocal(c) => c,
        DefaultBranchStep::Resolved(_) => panic!("unexpected result"),
    }
}

#[test]
fn remote_head_wins_without_origin_prefix() {
    let r = resolved(default_branch(&Some("origin/master".to_string()), &vec![true]));
    assert_eq!(r, Some(("origin/master".to_string(), "master".to_string())));
    let r = resolved(default_branch(&Some("origin/release/v2".to_string()), &vec![]));
    assert_eq!(r, Some(("origin/release/v2".to_string(), "release/v2".to_string())));
    let r = resolved(default_branch(&Some("trunk".to_string()), &vec![]));
    assert_eq!(r, Some(("trunk".to_string(), "trunk".to_string())));
}

#[test]
fn local_main_then_master() {
    assert_eq!(probe(default_branch(&None, &vec![])), "main");
    assert_eq!(probe(default_branch(&None, &vec![false])), "master");
    assert_eq!(
        resolved(default_branch(&None, &vec![true])),
        Some(("main".to_string(), "main".to_string()))
    );
    assert_eq!(
        resolved(default_branch(&None, &vec![false, true])),
        Some(("master".to_string(), "master".to_string()))
    );
    assert_eq!(resolved(default_branch(&None, &vec![false, false])), None);
}
