use newline_lint::target::LintTarget;

#[test]
fn regular_file_with_bytes_is_a_target() {
    let target = LintTarget::new("/root/a.txt".to_string(), true, Some(5)).unwrap();
    assert_eq!(target.path(), "/root/a.txt");
    assert_eq!(target.size(), 5);
}

#[test]
fn one_byte_is_enough() {
    let target = LintTarget::new("x".to_string(), true, Some(1)).unwrap();
    assert_eq!(target.size(), 1);
}

#[test]
fn largest_size_is_kept() {
    let target = LintTarget::new("big".to_string(), true, Some(u64::MAX)).unwrap();
    assert_eq!(target.size(), u64::MAX);
}

#[test]
fn empty_file_is_no_target() {
    assert!(LintTarget::new("/root/e.txt".to_string(), true, Some(0)).is_none());
}

#[test]
fn directory_is_no_target() {
    assert!(LintTarget::new("/root/dir".to_string(), false, Some(4096)).is_none());
    assert!(LintTarget::new("/root/dir".to_string(), false, Some(0)).is_none());
}

#[test]
fn entry_without_metadata_is_no_target() {
    assert!(LintTarget::new("/root/gone".to_string(), true, None).is_none());
    assert!(LintTarget::new("/root/gone".to_string(), false, None).is_none());
}
