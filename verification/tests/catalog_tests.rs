use ferro::catalog::get_available_versions;
use ferro::catalog::get_editions;
use ferro::catalog::get_releases;
use ferro::catalog::get_windows_versions;
use ferro::error::ResolveError;

#[test]
fn test_catalog_contents() {
    let versions = get_windows_versions();
    assert_eq!(versions.len(), 4);
    assert_eq!(versions[0].name, "Windows 11");
    assert_eq!(versions[1].name, "Windows 10");
    assert_eq!(versions[2].name, "UEFI Shell 2.2");
    assert_eq!(versions[3].name, "UEFI Shell 2.0");
    assert_eq!(versions[2].releases.len(), 10);
    assert_eq!(versions[0].releases[0].editions[0].ids, vec![3113, 3131]);
}

#[test]
fn test_available_versions_indexed() {
    let listed = get_available_versions();
    assert_eq!(listed.len(), 4);
    assert_eq!(listed[0].name, "Windows 11");
    assert_eq!(listed[0].page_type, "windows11");
    assert_eq!(listed[3].index, 3);
}

#[test]
fn test_get_releases_case_insensitive() {
    let releases = get_releases("windows 11").unwrap();
    assert_eq!(releases.len(), 1);
    assert_eq!(releases[0].name, "24H2 (Build 26100.1742 - 2024.10)");
    assert_eq!(releases[0].index, 0);
}

#[test]
fn test_get_releases_not_found() {
    let err = get_releases("solaris").unwrap_err();
    assert_eq!(err.message(), "Version 'solaris' not found");
    assert!(matches!(err, ResolveError::VersionNotFound { .. }));
}

#[test]
fn test_get_editions() {
    let editions = get_editions("Windows 11", "24h2").unwrap();
    assert_eq!(editions.len(), 3);
    assert_eq!(editions[0].name, "Windows 11 Home/Pro/Edu");
    assert_eq!(editions[0].id, vec![3113, 3131]);
}

#[test]
fn test_get_editions_release_not_found() {
    let err = get_editions("Windows 11", "99Z9").unwrap_err();
    assert_eq!(err.message(), "Release '99Z9' not found");
    assert!(matches!(err, ResolveError::ReleaseNotFound { .. }));
}

#[test]
fn test_substring_match_first_wins() {
    // "windows" matches both Windows 11 and Windows 10; the first entry wins
    let releases = get_releases("windows").unwrap();
    assert_eq!(releases[0].name, "24H2 (Build 26100.1742 - 2024.10)");
}
