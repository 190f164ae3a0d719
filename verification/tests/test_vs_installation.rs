use msbuild::vs_installation::{resolve, Candidate, InstanceRecord};
use msbuild::{Error, VsInstallation, VsInstallationVersion};

fn record(version: Option<&str>, path: Option<&str>) -> InstanceRecord {
    InstanceRecord {
        installation_version: version.map(String::from),
        installation_path: path.map(String::from),
    }
}

fn sample_instances() -> Vec<InstanceRecord> {
    vec![
        record(
            Some("14.0"),
            Some("C:\\Program Files (x86)\\Microsoft Visual Studio 14.0\\"),
        ),
        record(
            Some("17.12.35506.116"),
            Some("C:\\Program Files\\Microsoft Visual Studio\\2022\\Community"),
        ),
        record(
            Some("17.08.35506.116"),
            Some("C:\\Program Files\\Microsoft Visual Studio\\2022\\Enterprise"),
        ),
    ]
}

#[test]
fn test_parse_installation_version() {
    let version_str = "2.3.1.34";
    let rec = record(
        Some(version_str),
        Some("C:\\Program Files (x86)\\Microsoft Visual Studio 14.0\\"),
    );
    let expected = VsInstallationVersion::parse(version_str)
        .expect("It should be possible to parse the `version_str` as Version object.");
    let actual = rec
        .extract()
        .expect("The function should be able to extract an installation version from the record.");
    assert_eq!(expected, actual.version);
}

#[test]
fn test_parse_installation_path() {
    let expected = "C:\\Program Files (x86)\\Microsoft Visual Studio 14.0\\";
    let rec = record(Some("17.12.35506.116"), Some(expected));
    let actual = rec
        .extract()
        .expect("The function should be able to extract an installation path from the record.");
    assert_eq!(expected, actual.path);
}

#[test]
fn test_msbuild_validate_instances_json() {
    let values = sample_instances();
    assert_eq!(values.len(), 3, "There should be 3 instances.");

    let min = Some(
        VsInstallationVersion::parse("17.9")
            .expect("It should be possible to parse the 17.9 as a version."),
    );
    let max = Some(
        VsInstallationVersion::parse("18.0")
            .expect("It should be possible to parse the 18.0 as a version."),
    );
    let validated = VsInstallation::validate_instances(&values, max.as_ref(), min.as_ref());
    let expected_version = VsInstallationVersion::parse("17.12.35506.116")
        .expect("It should be possible to parse a valid version.");
    let expected_path = "C:\\Program Files\\Microsoft Visual Studio\\2022\\Community";
    assert_eq!(validated.matches.len(), 1, "There should only be 1 element found.");
    assert!(validated.failures.is_empty());
    let first = validated.matches.first().unwrap();
    assert_eq!(
        expected_version, first.version,
        "The returned version was not the expected one",
    );
    assert_eq!(
        expected_path, first.path,
        "The returned path was not the expected one."
    );
}

#[test]
fn test_msbuild_find_match() {
    let values = sample_instances();
    assert_eq!(values.len(), 3, "There should be 3 instances.");

    // The min and max are now chosen so that they will include
    // two possible results.
    let min = Some(
        VsInstallationVersion::parse("17.7")
            .expect("It should be possible to parse the 17.7 as a version."),
    );
    let max = Some(
        VsInstallationVersion::parse("18.0")
            .expect("It should be possible to parse the 18.0 as a version."),
    );

    // The expected value, when no override path has been supplied,
    // is the one with the latest version.
    let expected = "C:\\Program Files\\Microsoft Visual Studio\\2022\\Community";

    let actual = VsInstallation::find_match(&values, max.as_ref(), min.as_ref(), &None)
        .expect("The function is expected to return a valid result.");

    assert_eq!(expected, actual, "The resulting path does not match the expected one.");
}

#[test]
fn test_find_match_unique_survivor() {
    // With min 17.9 only the 17.12 instance survives the range filter.
    let values = sample_instances();
    let min = Some(VsInstallationVersion::parse("17.9").expect("should parse"));
    let max = Some(VsInstallationVersion::parse("18.0").expect("should parse"));
    let actual = VsInstallation::find_match(&values, max.as_ref(), min.as_ref(), &None)
        .expect("one candidate should survive");
    assert_eq!("C:\\Program Files\\Microsoft Visual Studio\\2022\\Community", actual);
}

#[test]
fn test_find_match_override_takes_precedence() {
    // The override path is a descendant of the Enterprise instance, so that
    // instance wins even though Community carries the higher version.
    let values = sample_instances();
    let min = Some(VsInstallationVersion::parse("17.7").expect("should parse"));
    let max = Some(VsInstallationVersion::parse("18.0").expect("should parse"));
    let override_path = Some(String::from(
        "C:\\Program Files\\Microsoft Visual Studio\\2022\\Enterprise\\Common7\\IDE",
    ));
    let actual = VsInstallation::find_match(&values, max.as_ref(), min.as_ref(), &override_path)
        .expect("the override should select the Enterprise instance");
    assert_eq!("C:\\Program Files\\Microsoft Visual Studio\\2022\\Enterprise", actual);
}

#[test]
fn test_find_match_override_out_of_range() {
    // An override pointing below an installation whose version is out of the
    // requested range selects nothing: the override only narrows the
    // range-filtered candidates.
    let values = sample_instances();
    let min = Some(VsInstallationVersion::parse("17.9").expect("should parse"));
    let max = Some(VsInstallationVersion::parse("18.0").expect("should parse"));
    let override_path = Some(String::from(
        "C:\\Program Files\\Microsoft Visual Studio\\2022\\Enterprise\\Common7",
    ));
    let err = VsInstallation::find_match(&values, max.as_ref(), min.as_ref(), &override_path)
        .expect_err("the overridden instance is out of range");
    assert_eq!(err, Error::NotFound);
}

#[test]
fn test_find_match_empty_batch_not_found() {
    let values: Vec<InstanceRecord> = Vec::new();
    let err = VsInstallation::find_match(&values, None, None, &None)
        .expect_err("an empty batch cannot resolve");
    assert_eq!(err, Error::NotFound);
    let min = Some(VsInstallationVersion::parse("1.0").expect("should parse"));
    let err = VsInstallation::find_match(&values, None, min.as_ref(), &None)
        .expect_err("an empty batch cannot resolve for any range");
    assert_eq!(err, Error::NotFound);
}

#[test]
fn test_validate_instances_skips_malformed_record() {
    // A record without its path field is reported as a failure and does not
    // abort the batch: the valid candidates still come through.
    let mut values = sample_instances();
    values.insert(1, record(Some("17.10.0.0"), None));
    let min = Some(VsInstallationVersion::parse("17.7").expect("should parse"));
    let max = Some(VsInstallationVersion::parse("18.0").expect("should parse"));
    let validated = VsInstallation::validate_instances(&values, max.as_ref(), min.as_ref());
    assert_eq!(validated.matches.len(), 2);
    assert_eq!(validated.failures.len(), 1);
    assert_eq!(validated.failures[0].1, Error::MissingField);
    let actual = VsInstallation::find_match(&values, max.as_ref(), min.as_ref(), &None)
        .expect("the batch must still resolve");
    assert_eq!("C:\\Program Files\\Microsoft Visual Studio\\2022\\Community", actual);
}

#[test]
fn test_extract_error_kinds() {
    let err = record(None, Some("C:\\somewhere")).extract().unwrap_err();
    assert_eq!(err, Error::MissingField, "a missing version field is MissingField");
    let err = record(Some("17.0"), None).extract().unwrap_err();
    assert_eq!(err, Error::MissingField, "a missing path field is MissingField");
    let err = record(Some("not-a-version"), Some("C:\\somewhere")).extract().unwrap_err();
    assert_eq!(err, Error::InvalidFormat, "an unparsable version field is InvalidFormat");
}

#[test]
fn test_resolve_ties_broken_towards_last() {
    // Two candidates with an identical version: the last one in input order
    // wins, mirroring stable max-by-key selection.
    let candidates = vec![
        Candidate {
            version: VsInstallationVersion::parse("17.0").expect("should parse"),
            path: String::from("first"),
        },
        Candidate {
            version: VsInstallationVersion::parse("17.0.0.0").expect("should parse"),
            path: String::from("second"),
        },
    ];
    let actual = resolve(&candidates, &None).expect("a candidate should be selected");
    assert_eq!("second", actual);
}

#[test]
fn test_resolve_empty_not_found() {
    let candidates: Vec<Candidate> = Vec::new();
    let err = resolve(&candidates, &None).expect_err("nothing to select");
    assert_eq!(err, Error::NotFound);
    let err = resolve(&candidates, &Some(String::from("C:\\x"))).expect_err("nothing to select");
    assert_eq!(err, Error::NotFound);
}

#[test]
fn test_resolve_override_picks_first_ancestor() {
    let candidates = vec![
        Candidate {
            version: VsInstallationVersion::parse("16.0").expect("should parse"),
            path: String::from("C:\\vs\\2019"),
        },
        Candidate {
            version: VsInstallationVersion::parse("17.0").expect("should parse"),
            path: String::from("C:\\vs\\2022"),
        },
    ];
    let override_path = Some(String::from("C:\\vs\\2019\\Common7"));
    let actual = resolve(&candidates, &override_path).expect("the ancestor should be found");
    assert_eq!("C:\\vs\\2019", actual);
    // A path that is not under any candidate selects nothing.
    let override_path = Some(String::from("C:\\vs\\2017\\Common7"));
    let err = resolve(&candidates, &override_path).expect_err("no candidate is an ancestor");
    assert_eq!(err, Error::NotFound);
    // A component-boundary mismatch is not an ancestor relation.
    let override_path = Some(String::from("C:\\vs\\2019extra"));
    let err = resolve(&candidates, &override_path).expect_err("2019extra is not under 2019");
    assert_eq!(err, Error::NotFound);
}

#[test]
fn test_resolve_override_with_nested_candidates() {
    // When several candidates are ancestors of the override, the first one
    // in input order is taken.
    let candidates = vec![
        Candidate {
            version: VsInstallationVersion::parse("16.0").expect("should parse"),
            path: String::from("C:\\vs"),
        },
        Candidate {
            version: VsInstallationVersion::parse("17.0").expect("should parse"),
            path: String::from("C:\\vs\\2022"),
        },
    ];
    let override_path = Some(String::from("C:\\vs\\2022\\Common7"));
    let actual = resolve(&candidates, &override_path).expect("both candidates are ancestors");
    assert_eq!("C:\\vs", actual);
}
