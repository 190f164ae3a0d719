use msbuild::{has_version_in_range, Error, VsInstallationVersion, VsProductLineVersion};

#[test]
fn test_msbuild_has_version_in_range() {
    let max = Some(
        VsInstallationVersion::parse("4.3.2.1")
            .expect("It should be possible to create a Version object from the string 4.3.2.1"),
    );
    let min = Some(
        VsInstallationVersion::parse("1.2.3.4")
            .expect("It should be possible to create a Version object from the string 1.2.3.4"),
    );
    // Check with no min or max
    assert!(
        has_version_in_range(
            &VsInstallationVersion::parse("0.0.0.0").expect(
                "It should be possible to create a Version object from the string 0.0.0.0"
            ),
            None,
            None
        ),
        "The version 0.0.0.0 should be in range when no min or max values have been specified."
    );
    // Check outside of range with min value.
    assert!(
        !has_version_in_range(
            &VsInstallationVersion::parse("0.0.0.0").expect(
                "It should be possible to create a Version object from the string 0.0.0.0"
            ),
            None,
            min.as_ref()
        ),
        "The version 0.0.0.0 should not be in range when min is 1.2.3.4"
    );
    // Check inside of range with min value
    assert!(
        has_version_in_range(
            &VsInstallationVersion::parse("1.2.3.300").expect(
                "It should be possible to create a Version object from the string 1.2.3.300"
            ),
            None,
            min.as_ref()
        ),
        "The version 1.2.3.300 should be in range when min is 1.2.3.4 and no max is given."
    );
    // Check out of range with max value
    assert!(
        !has_version_in_range(
            &VsInstallationVersion::parse("4.3.2.11").expect(
                "It should be possible to create a Version object from the string 4.3.2.11"
            ),
            max.as_ref(),
            None,
        ),
        "The version 4.3.2.11 should not be in range when max is 4.3.2.1 and no min is given."
    );
    // Check in range with max value
    assert!(
        has_version_in_range(
            &VsInstallationVersion::parse("4.0.2.11").expect(
                "It should be possible to create a Version object from the string 4.0.2.11"
            ),
            max.as_ref(),
            None,
        ),
        "The version 4.0.2.11 should be in range when max is 4.3.2.1 and no min is given."
    );
    // Check in range with min and max
    assert!(
        has_version_in_range(
            &VsInstallationVersion::parse("4.0.2.11").expect(
                "It should be possible to create a Version object from the string 4.0.2.11"
            ),
            max.as_ref(),
            min.as_ref(),
        ),
        "The version 4.0.2.11 should be in range when max is 4.3.2.1 and min is 1.2.3.4."
    );
}

#[test]
fn test_version_ordering_round_trip() {
    // Parsing keeps the ordering position of the dotted components.
    let a = VsInstallationVersion::parse("1.2.3.4").expect("1.2.3.4 should parse");
    let b = VsInstallationVersion::parse("1.2.3.5").expect("1.2.3.5 should parse");
    assert!(a < b, "1.2.3.4 should order below 1.2.3.5");
    assert!(!(b < a));
    // Trailing zero components do not change the position.
    let short = VsInstallationVersion::parse("1.0").expect("1.0 should parse");
    let long = VsInstallationVersion::parse("1.0.0.0").expect("1.0.0.0 should parse");
    assert_eq!(short, long, "1.0 and 1.0.0.0 should compare as equal");
    assert!(!(short < long));
    assert!(!(long < short));
}

#[test]
fn test_version_parse_components() {
    let v = VsInstallationVersion::parse("17.12.35506.116").expect("version should parse");
    assert_eq!(v.parts().as_slice(), &[17, 12, 35506, 116]);
    // A shorter version has fewer stored components.
    let v = VsInstallationVersion::parse("14.0").expect("version should parse");
    assert_eq!(v.parts().as_slice(), &[14, 0]);
}

#[test]
fn test_version_parse_lenient_suffixes() {
    // A non-numeric suffix after the digit run is tolerated.
    let v = VsInstallationVersion::parse("1.2rc.3").expect("1.2rc.3 should parse");
    assert_eq!(v.parts().as_slice(), &[1, 2, 3]);
    // A segment without digits counts as zero as long as some segment has one.
    let v = VsInstallationVersion::parse("1.x.3").expect("1.x.3 should parse");
    assert_eq!(v.parts().as_slice(), &[1, 0, 3]);
}

#[test]
fn test_version_parse_invalid_format() {
    // No segment with a leading digit: rejected.
    assert_eq!(VsInstallationVersion::parse("abc").unwrap_err(), Error::InvalidFormat);
    assert_eq!(VsInstallationVersion::parse("").unwrap_err(), Error::InvalidFormat);
    assert_eq!(VsInstallationVersion::parse("..").unwrap_err(), Error::InvalidFormat);
    // A component beyond the machine limit: rejected.
    assert_eq!(
        VsInstallationVersion::parse("1.99999999999999999999999").unwrap_err(),
        Error::InvalidFormat
    );
}

#[test]
fn test_version_range_boundaries() {
    let max = VsInstallationVersion::parse("18.0").expect("18.0 should parse");
    let min = VsInstallationVersion::parse("17.0").expect("17.0 should parse");
    // The upper bound is exclusive: the bound itself is out of range.
    assert!(!has_version_in_range(&max, Some(&max), None));
    // The lower bound is inclusive: the bound itself is in range.
    assert!(has_version_in_range(&min, None, Some(&min)));
    // Zero padding also holds at the boundaries.
    let max_padded = VsInstallationVersion::parse("18.0.0.0").expect("should parse");
    assert!(!has_version_in_range(&max_padded, Some(&max), None));
    assert!(has_version_in_range(
        &VsInstallationVersion::parse("17.0.0.0").expect("should parse"),
        None,
        Some(&min)
    ));
}

#[test]
fn test_product_line_version_ranges() {
    let plv = VsProductLineVersion::parse("2022").expect("2022 should be a known product line");
    assert_eq!(
        plv.installation_version_max(),
        VsInstallationVersion::parse("18.0.0.0").expect("should parse")
    );
    assert_eq!(
        plv.installation_version_min(),
        VsInstallationVersion::parse("17.0.0.0").expect("should parse")
    );
    let plv = VsProductLineVersion::parse("2019").expect("2019 should be a known product line");
    assert_eq!(
        plv.installation_version_max(),
        VsInstallationVersion::parse("17.0.0.0").expect("should parse")
    );
    assert_eq!(
        plv.installation_version_min(),
        VsInstallationVersion::parse("16.0.0.0").expect("should parse")
    );
    let plv = VsProductLineVersion::parse("2017").expect("2017 should be a known product line");
    assert_eq!(
        plv.installation_version_max(),
        VsInstallationVersion::parse("16.0.0.0").expect("should parse")
    );
    assert_eq!(
        plv.installation_version_min(),
        VsInstallationVersion::parse("15.0.0.0").expect("should parse")
    );
}

#[test]
fn test_product_line_version_unknown() {
    assert_eq!(VsProductLineVersion::parse("2021").unwrap_err(), Error::InvalidFormat);
    assert_eq!(VsProductLineVersion::parse("").unwrap_err(), Error::InvalidFormat);
}
