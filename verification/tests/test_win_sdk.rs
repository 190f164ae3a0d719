use msbuild::vs_paths::DirSnapshot;
use msbuild::win_sdk::{WinSdk, WinSdkIncludes, WinSdkVersion};
use msbuild::Error;

/// Records `path` as a directory holding the full set of required include
/// sub directories.
fn record_valid_include_dir(observed: &mut DirSnapshot, path: &str) {
    observed.record(String::from(path));
    for name in ["cppwinrt", "shared", "ucrt", "um", "winrt"] {
        observed.record(format!("{}/{}", path, name));
    }
}

#[test]
fn test_win_sdk_includes_create_error() {
    let observed = DirSnapshot::new();
    let error = WinSdkIncludes::create(".", &observed).expect_err(
        "Creating a WinSdkIncludes object with an invalid path should result in an error.",
    );
    assert_eq!(error, Error::NotFound);
}

#[test]
fn test_win_sdk_includes() {
    let mut observed = DirSnapshot::new();

    let is_not_valid = !WinSdkIncludes::is_valid("sdk", &observed);
    assert!(is_not_valid);

    record_valid_include_dir(&mut observed, "sdk");

    assert!(WinSdkIncludes::is_valid("sdk", &observed));

    let actual = WinSdkIncludes::create("sdk", &observed).expect(
        "It should be possible to create a WinSdkIncludes object when all sub directories are present.",
    );

    assert_eq!(actual.cppwinrt_dir(), "sdk/cppwinrt");
    assert_eq!(actual.shared_dir(), "sdk/shared");
    assert_eq!(actual.ucrt_dir(), "sdk/ucrt");
    assert_eq!(actual.um_dir(), "sdk/um");
    assert_eq!(actual.winrt_dir(), "sdk/winrt");
}

#[test]
fn test_win_sdk_includes_missing_subdir() {
    // A directory that lacks one of the required sub directories is neither
    // valid nor creatable.
    let mut observed = DirSnapshot::new();
    observed.record(String::from("sdk"));
    for name in ["cppwinrt", "shared", "ucrt", "winrt"] {
        observed.record(format!("sdk/{}", name));
    }
    assert!(!WinSdkIncludes::is_valid("sdk", &observed));
    let error = WinSdkIncludes::create("sdk", &observed)
        .expect_err("a missing um directory should fail the creation");
    assert_eq!(error, Error::NotFound);
}

#[test]
fn test_include_versioned_subdirs() {
    // sdk
    //  |-> Include
    //    |-> 10.0.2.0
    //    |-> 10.0.1.0
    //    |-> 10.0.0.0
    let mut observed = DirSnapshot::new();
    observed.record(String::from("sdk"));
    observed.record(String::from("sdk/Include"));
    let names = ["10.0.2.0", "10.0.1.0", "10.0.0.0"];
    let mut expected: Vec<String> = Vec::new();
    for v in names {
        let versioned_subdir = format!("sdk/Include/{}", v);
        record_valid_include_dir(&mut observed, versioned_subdir.as_str());
        expected.push(versioned_subdir);
    }
    let child_names: Vec<String> = names.iter().map(|s| String::from(*s)).collect();
    let mut actual: Vec<String> = WinSdk::include_versioned_subdirs(
        "sdk",
        &child_names,
        &observed,
        None,
        None,
    )
    .expect("It should be possible to find a valid include sub directory in the parent folder.")
    .into_iter()
    .map(|d| d.path)
    .collect();
    expected.sort();
    actual.sort();
    assert_eq!(expected, actual);
}

#[test]
fn test_include_versioned_subdirs_skips_noise() {
    // Children whose name does not parse as a version, or which lack the
    // required sub directories, are skipped silently.
    let mut observed = DirSnapshot::new();
    observed.record(String::from("sdk/Include"));
    record_valid_include_dir(&mut observed, "sdk/Include/10.0.1.0");
    // A valid name without the structural sub directories.
    observed.record(String::from("sdk/Include/10.0.2.0"));
    // Not observed as a directory at all.
    let child_names: Vec<String> = ["notes", "10.0.1.0", "10.0.2.0", "10.0.3.0"]
        .iter()
        .map(|s| String::from(*s))
        .collect();
    let found = WinSdk::include_versioned_subdirs("sdk", &child_names, &observed, None, None)
        .expect("one child qualifies");
    assert_eq!(found.len(), 1);
    assert_eq!(found[0].path, "sdk/Include/10.0.1.0");
}

#[test]
fn test_include_versioned_subdirs_no_include_dir() {
    let observed = DirSnapshot::new();
    let child_names: Vec<String> = vec![String::from("10.0.1.0")];
    let err = WinSdk::include_versioned_subdirs("sdk", &child_names, &observed, None, None)
        .expect_err("without an Include directory nothing can be found");
    assert_eq!(err, Error::NotFound);
}

#[test]
fn test_find() {
    let mut observed = DirSnapshot::new();
    observed.record(String::from("sdk"));
    observed.record(String::from("sdk/Include"));
    record_valid_include_dir(&mut observed, "sdk/Include/10.0.22621.0");
    let child_names: Vec<String> = vec![String::from("10.0.22621.0")];
    let sdk = WinSdk::find("sdk", &child_names, &observed)
        .expect("a fully laid out revision should be found");
    assert_eq!(sdk.include_dirs().cppwinrt_dir(), "sdk/Include/10.0.22621.0/cppwinrt");
}

#[test]
fn test_find_in_range() {
    let mut observed = DirSnapshot::new();
    observed.record(String::from("sdk"));
    observed.record(String::from("sdk/Include"));
    let names = ["10.0.20348.0", "10.0.22000.0", "10.0.22621.0"];
    for v in names {
        record_valid_include_dir(&mut observed, format!("sdk/Include/{}", v).as_str());
    }
    let child_names: Vec<String> = names.iter().map(|s| String::from(*s)).collect();
    let min = WinSdkVersion::parse("10.0.20000.0")
        .expect("It should be possible to parse a valid version");
    let max = WinSdkVersion::parse("10.0.21000.0")
        .expect("It should be possible to parse a valid version");
    // Only 10.0.20348.0 lies in the range.
    let found = WinSdk::include_versioned_subdirs(
        "sdk",
        &child_names,
        &observed,
        Some(&max),
        Some(&min),
    )
    .expect("one revision lies in the range");
    assert_eq!(found.len(), 1);
    assert_eq!(found[0].path, "sdk/Include/10.0.20348.0");
    let sdk = WinSdk::find_in_range("sdk", &child_names, &observed, Some(&max), Some(&min))
        .expect("the revision in range should be selected");
    assert_eq!(sdk.include_dirs().cppwinrt_dir(), "sdk/Include/10.0.20348.0/cppwinrt");
}

#[test]
fn test_find_selects_highest_version() {
    let mut observed = DirSnapshot::new();
    observed.record(String::from("sdk/Include"));
    let names = ["10.0.20348.0", "10.0.22621.0", "10.0.22000.0"];
    for v in names {
        record_valid_include_dir(&mut observed, format!("sdk/Include/{}", v).as_str());
    }
    let child_names: Vec<String> = names.iter().map(|s| String::from(*s)).collect();
    let sdk = WinSdk::find("sdk", &child_names, &observed)
        .expect("a revision should be selected");
    assert_eq!(sdk.include_dirs().um_dir(), "sdk/Include/10.0.22621.0/um");
}

#[test]
fn test_win_sdk_version_parse() {
    let v = WinSdkVersion::parse("10.0.22621.0").expect("the version should parse");
    let w = WinSdkVersion::parse("10.0.22621.0").expect("the version should parse");
    assert!(v.is_in_range(None, None));
    assert!(!v.is_in_range(Some(&w), None), "the exclusive upper bound excludes itself");
    assert!(v.is_in_range(None, Some(&w)), "the inclusive lower bound admits itself");
    assert_eq!(WinSdkVersion::parse("no-digits-here").unwrap_err(), Error::InvalidFormat);
}
