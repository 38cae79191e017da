use nix_update_git::utils::VersionDetector;

use std::cmp::Ordering;

#[test]
fn test_is_version() {
    assert!(VersionDetector::is_version("v1.0.0"));
    assert!(VersionDetector::is_version("1.0.0"));
    assert!(VersionDetector::is_version("0.1.0-beta"));
    assert!(VersionDetector::is_version("140.0"));
    assert!(VersionDetector::is_version("v140.0"));
    assert!(VersionDetector::is_version("100"));
    assert!(VersionDetector::is_version("100"));

    assert!(!VersionDetector::is_version("main"));
    assert!(!VersionDetector::is_version("master"));
    assert!(!VersionDetector::is_version(
        "0f14e030b3a9391e761c03ce3c260730a78a4db6"
    ));

    assert!(VersionDetector::is_version("25.01"));
    assert!(VersionDetector::is_version("2025.01"));
    assert!(VersionDetector::is_version("2025.01.01"));
    assert!(VersionDetector::is_version("2025.01.01.123456"));

    assert!(VersionDetector::is_version("1.2.3.4"));
}

#[test]
fn test_compare() {
    assert_eq!(VersionDetector::compare("v1.0.0", "v2.0.0"), Ordering::Less);
    assert_eq!(
        VersionDetector::compare("v2.0.0", "v1.0.0"),
        Ordering::Greater
    );
    assert_eq!(
        VersionDetector::compare("v1.0.0", "v1.0.0"),
        Ordering::Equal
    );
    assert_eq!(VersionDetector::compare("v1.0.0", "v1.0.1"), Ordering::Less);
    assert_eq!(VersionDetector::compare("140.0", "141.0"), Ordering::Less);
    assert_eq!(VersionDetector::compare("100", "200"), Ordering::Less);
    assert_eq!(VersionDetector::compare("2.41", "2.6"), Ordering::Greater);
}

#[test]
fn test_prefix() {
    assert_eq!(VersionDetector::prefix("v1.0.0"), "v");
    assert_eq!(VersionDetector::prefix("V2.0"), "V");
    assert_eq!(VersionDetector::prefix("1.0.0"), "");
    assert_eq!(VersionDetector::prefix("140.0"), "");
    assert_eq!(VersionDetector::prefix("release-1.0.0"), "release-");
    assert_eq!(VersionDetector::prefix("rc-2.0-beta"), "rc-");
}

#[test]
fn test_latest_matching() {
    let versions: Vec<&str> = vec!["v1.0.0", "v2.0.0", "2.6", "v1.5.0"];
    assert_eq!(
        VersionDetector::latest_matching(&versions, "v2.41"),
        Some("v2.0.0")
    );
    assert_eq!(
        VersionDetector::latest_matching(&versions, "2.41"),
        Some("2.6")
    );

    let versions: Vec<&str> = vec!["v1.0.0", "v2.0.0", "v1.5.0"];
    assert_eq!(
        VersionDetector::latest_matching(&versions, "v1.0.0"),
        Some("v2.0.0")
    );

    let versions: Vec<&str> = vec!["1.0.0", "2.0.0", "1.5.0"];
    assert_eq!(
        VersionDetector::latest_matching(&versions, "1.0.0"),
        Some("2.0.0")
    );

    let versions: Vec<&str> = vec!["release-1.0.0", "release-2.0.0", "v3.0.0"];
    assert_eq!(
        VersionDetector::latest_matching(&versions, "release-1.0.0"),
        Some("release-2.0.0")
    );
}

#[test]
fn test_latest() {
    let versions: Vec<&str> = vec!["v1.0.0", "v2.0.0", "v1.5.0"];
    let result = VersionDetector::latest(&versions);
    assert_eq!(result, Some("v2.0.0"));

    let versions: Vec<&str> = vec!["100.0", "140.0", "141.0"];
    let result = VersionDetector::latest(&versions);
    assert_eq!(result, Some("141.0"));
}

#[test]
fn compare_ignores_the_prefix_and_reverses() {
    assert_eq!(VersionDetector::compare("v1.2", "1.2"), Ordering::Equal);
    assert_eq!(VersionDetector::compare("1.3", "1.2"), Ordering::Greater);
    assert_eq!(VersionDetector::compare("1.2", "1.3"), Ordering::Less);
}
