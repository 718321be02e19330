use arrow::gitout::{du_kb, epoch_seconds, git_stdout, now_epoch};

#[test]
fn stdout_only_on_success_and_trimmed() {
    assert_eq!(git_stdout(true, b"  main\n"), Some("main".to_string()));
    assert_eq!(git_stdout(true, "\u{a0}x\u{3000}".as_bytes()), Some("x".to_string()));
    assert_eq!(git_stdout(false, b"main"), None);
    assert_eq!(git_stdout(true, b""), Some(String::new()));
}

#[test]
fn du_reads_first_word() {
    assert_eq!(du_kb(true, b"1234\t/home/u/wt\n"), Some(1234));
    assert_eq!(du_kb(true, b"  +7 x"), Some(7));
    assert_eq!(du_kb(true, b"-5\t/x"), None);
    assert_eq!(du_kb(true, b"abc\t/x"), None);
    assert_eq!(du_kb(true, b"18446744073709551616\t/x"), None);
    assert_eq!(du_kb(true, b""), None);
    assert_eq!(du_kb(false, b"12\t/x"), None);
}

#[test]
fn epoch_seconds_from_clock() {
    assert_eq!(epoch_seconds(None), 0);
    assert_eq!(epoch_seconds(Some(1_700_000_000)), 1_700_000_000);
    assert_eq!(epoch_seconds(Some(u64::MAX)), -1);
    assert!(now_epoch() > 1_600_000_000);
}
