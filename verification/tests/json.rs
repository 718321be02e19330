use arrow::json::{merged_pr_branches, merged_pr_branches_of, JsonValue};

fn pr(name: JsonValue) -> JsonValue {
    JsonValue::Object(vec![("headRefName".to_string(), name)])
}

#[test]
fn branches_of_merged_prs() {
    let listing = JsonValue::Array(vec![
        pr(JsonValue::Str("feat-a".to_string())),
        pr(JsonValue::Str("feat-b".to_string())),
        pr(JsonValue::Str("feat-a".to_string())),
        pr(JsonValue::Number("3".to_string())),
        JsonValue::Str("headRefName".to_string()),
        JsonValue::Object(vec![("title".to_string(), JsonValue::Str("x".to_string()))]),
    ]);
    assert_eq!(merged_pr_branches(&listing), vec!["feat-a".to_string(), "feat-b".to_string()]);
}

#[test]
fn not_an_array_means_no_branches() {
    assert!(merged_pr_branches(&pr(JsonValue::Str("x".to_string()))).is_empty());
    assert!(merged_pr_branches(&JsonValue::Null).is_empty());
    assert!(merged_pr_branches(&JsonValue::Array(vec![])).is_empty());
}

#[test]
fn branches_from_gh_output() {
    let out = br#"[{"headRefName":"feat-a"},{"headRefName":"feat-b"},{"headRefName":"feat-a"},{"number":3}]"#;
    assert_eq!(merged_pr_branches_of(true, out), vec!["feat-a".to_string(), "feat-b".to_string()]);
    assert!(merged_pr_branches_of(false, out).is_empty());
    assert!(merged_pr_branches_of(true, b"not json").is_empty());
    assert!(merged_pr_branches_of(true, br#"{"headRefName":"x"}"#).is_empty());
    assert!(merged_pr_branches_of(true, b"[]").is_empty());
}
