use manifestvault_engine::advisory::{AffectedPackage, AffectedRange, RangeEvent};
use manifestvault_engine::cvss::{
    cvss_v3_metrics, AttackComplexity, AttackVector, CvssV3Metrics, Impact, PrivilegesRequired,
    UserInteraction,
};
use manifestvault_engine::score::{binary_matches, binary_name};
use manifestvault_engine::version::{tokenize_version, version_cmp, VersionToken};
use std::cmp::Ordering;

#[test]
fn reads_a_full_cvss_vector() {
    assert_eq!(
        cvss_v3_metrics("CVSS:3.1/AV:N/AC:L/PR:N/UI:N/S:U/C:H/I:H/A:H"),
        Some(CvssV3Metrics {
            attack_vector: AttackVector::Network,
            attack_complexity: AttackComplexity::Low,
            privileges_required: PrivilegesRequired::NotRequired,
            user_interaction: UserInteraction::NotRequired,
            scope_changed: false,
            confidentiality: Impact::High,
            integrity: Impact::High,
            availability: Impact::High,
        })
    );
}

#[test]
fn changed_scope_and_last_value_win() {
    let metrics = cvss_v3_metrics("AV:L/AV:P/AC:H/PR:L/UI:R/S:C/C:L/I:N/A:N/junk").expect("metrics");

    assert_eq!(metrics.attack_vector, AttackVector::Physical);
    assert_eq!(metrics.privileges_required, PrivilegesRequired::Low);
    assert!(metrics.scope_changed);
    assert_eq!(metrics.integrity, Impact::Absent);
}

#[test]
fn incomplete_or_unknown_vectors_have_no_metrics() {
    assert_eq!(cvss_v3_metrics("CVSS:3.1/AV:N/AC:L/PR:N/UI:N/S:U/C:H/I:H"), None);
    assert_eq!(cvss_v3_metrics("AV:X/AC:L/PR:N/UI:N/C:H/I:H/A:H"), None);
    assert_eq!(cvss_v3_metrics("AV:N/AC:L/PR:L/UI:N/S:X/C:H/I:H/A:H"), None);
    assert!(cvss_v3_metrics("AV:N/AC:L/PR:N/UI:N/S:X/C:H/I:H/A:H").is_some());
    assert_eq!(cvss_v3_metrics("8.1"), None);
}

#[test]
fn tokens_split_digits_from_letters() {
    assert_eq!(
        tokenize_version("3.1.0-R12b"),
        vec![
            VersionToken::Number(3),
            VersionToken::Number(1),
            VersionToken::Number(0),
            VersionToken::Text("r".to_owned()),
            VersionToken::Number(12),
            VersionToken::Text("b".to_owned()),
        ]
    );
    assert!(VersionToken::Number(0).is_zero());
    assert!(!VersionToken::Text("a".to_owned()).is_zero());
}

#[test]
fn versions_compare_by_tokens() {
    assert_eq!(version_cmp("1.0.0", "1"), Ordering::Equal);
    assert_eq!(version_cmp("1.10", "1.9"), Ordering::Greater);
    assert_eq!(version_cmp("1.0a", "1.0.1"), Ordering::Less);
    assert_eq!(version_cmp("2.0", "2.0"), Ordering::Equal);
}

#[test]
fn ranges_match_introduced_to_fixed() {
    let range = AffectedRange {
        events: vec![
            RangeEvent::Introduced("1.0".to_owned()),
            RangeEvent::Fixed("1.5".to_owned()),
            RangeEvent::Introduced("2.0".to_owned()),
            RangeEvent::LastAffected("2.1".to_owned()),
        ],
    };

    assert!(!range.matches_version("0.9"));
    assert!(range.matches_version("1.2"));
    assert!(!range.matches_version("1.5"));
    assert!(range.matches_version("2.1"));
    assert!(!range.matches_version("2.2"));
}

#[test]
fn listed_versions_match_exactly() {
    let package = AffectedPackage {
        ecosystem: "Debian".to_owned(),
        name: "libssl3".to_owned(),
        versions: vec!["3.0.11-1".to_owned()],
        ranges: Vec::new(),
    };

    assert!(package.matches_version("3.0.11-1"));
    assert!(!package.matches_version("3.0.11-2"));
}

#[test]
fn binary_names_ignore_directories_and_case() {
    assert_eq!(binary_name("/usr/bin/OpenSSL "), "openssl");
    assert_eq!(binary_name("C:\\tools\\app.exe"), "app.exe");
    assert!(binary_matches("/usr/local/bin/openssl", "openssl"));
    assert!(!binary_matches("/usr/bin/", "/bin/"));
}
