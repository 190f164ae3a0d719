use msbuild::vs_paths::{join_path, path_starts_with, sub_directory, DirSnapshot};
use msbuild::Error;

#[test]
fn test_join_path_inserts_separator() {
    assert_eq!(join_path("C:\\vs", "Common7"), "C:\\vs/Common7");
    assert_eq!(join_path("sdk/Include", "10.0.1.0"), "sdk/Include/10.0.1.0");
}

#[test]
fn test_join_path_keeps_trailing_separator() {
    assert_eq!(join_path("C:\\vs\\", "Common7"), "C:\\vs\\Common7");
    assert_eq!(join_path("sdk/", "Include"), "sdk/Include");
}

#[test]
fn test_join_path_empty_parent() {
    assert_eq!(join_path("", "Include"), "Include");
}

#[test]
fn test_path_starts_with_components() {
    assert!(path_starts_with("C:\\vs\\2022\\Common7", "C:\\vs\\2022"));
    assert!(path_starts_with("C:\\vs\\2022", "C:\\vs\\2022"));
    assert!(path_starts_with("C:\\vs\\2022\\Common7", "C:\\vs\\"));
    assert!(path_starts_with("C:/vs/2022/Common7", "C:/vs"));
    // The prefix has to end at a component boundary.
    assert!(!path_starts_with("C:\\vs\\2022extra", "C:\\vs\\2022"));
    // A prefix longer than the path never matches.
    assert!(!path_starts_with("C:\\vs", "C:\\vs\\2022"));
    // The empty path is an ancestor of everything.
    assert!(path_starts_with("C:\\vs", ""));
}

#[test]
fn test_dir_snapshot_contains() {
    let mut observed = DirSnapshot::new();
    assert!(!observed.contains("C:\\vs"));
    observed.record(String::from("C:\\vs"));
    observed.record(String::from("C:\\vs/Common7"));
    assert!(observed.contains("C:\\vs"));
    assert!(observed.contains("C:\\vs/Common7"));
    assert!(!observed.contains("C:\\vs/Common8"));
}

#[test]
fn test_sub_directory_observed() {
    let mut observed = DirSnapshot::new();
    observed.record(String::from("C:\\vs/Common7"));
    let p = sub_directory("C:\\vs", "Common7", &observed)
        .expect("the observed sub directory should be accepted");
    assert_eq!(p, "C:\\vs/Common7");
}

#[test]
fn test_sub_directory_missing() {
    let observed = DirSnapshot::new();
    let err = sub_directory("C:\\vs", "Common7", &observed)
        .expect_err("an unobserved sub directory should be refused");
    assert_eq!(err, Error::NotFound);
}
