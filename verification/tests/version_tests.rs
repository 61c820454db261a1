use gvc::order::Precedence;
use gvc::repository::{DefaultVersionStrategy, VersionStrategy};
use gvc::version::{Version, VersionComparator, VersionType};

#[test]
fn test_version_parsing() {
    let v1 = Version::parse("1.0.0");
    let v2 = Version::parse("1.0.1");
    assert!(v2 > v1);
}

#[test]
fn test_stable_detection() {
    assert!(Version::parse("1.0.0").is_stable());
    assert!(!Version::parse("1.0.0-alpha").is_stable());
    assert!(!Version::parse("1.0.0-SNAPSHOT").is_stable());
}

#[test]
fn test_get_latest() {
    let versions = vec![
        "1.0.0".to_string(),
        "1.1.0-alpha".to_string(),
        "1.0.1".to_string(),
    ];

    let latest = VersionComparator::get_latest(&versions, false);
    assert_eq!(latest, Some("1.1.0-alpha".to_string()));

    let latest_stable = VersionComparator::get_latest(&versions, true);
    assert_eq!(latest_stable, Some("1.0.1".to_string()));
}

#[test]
fn test_numeric_version_comparison() {
    let v1 = Version::parse("2024.1.1");
    let v2 = Version::parse("2024.1.2");
    let v3 = Version::parse("2024.2.1");
    assert!(v2 > v1);
    assert!(v3 > v2);
    assert!(v3 > v1);
}

#[test]
fn test_mixed_version_formats() {
    let v1 = Version::parse("1.0.0");
    let v2 = Version::parse("2.0");
    assert!(v2 > v1);
}

#[test]
fn test_unstable_markers() {
    assert!(!Version::parse("1.0.0-beta").is_stable());
    assert!(!Version::parse("1.0.0-rc1").is_stable());
    assert!(!Version::parse("1.0.0-dev").is_stable());
    assert!(!Version::parse("1.0.0.dev").is_stable());
    assert!(!Version::parse("1.0.0-m1").is_stable());
    assert!(!Version::parse("1.0.0-eap").is_stable());
    assert!(!Version::parse("1.0.0-preview").is_stable());
    assert!(!Version::parse("1.0.0-canary").is_stable());
}

#[test]
fn test_snapshot_versions() {
    let v1 = Version::parse("1.0.0-SNAPSHOT");
    let v2 = Version::parse("1.0.0");
    assert!(v2 > v1);
    assert!(!v1.is_stable());
}

#[test]
fn test_version_with_different_lengths() {
    let v1 = Version::parse("1.0");
    let v2 = Version::parse("1.0.0");
    let v3 = Version::parse("1.0.0.0");
    assert!(v2 >= v1);
    assert!(v3 >= v2);
}

#[test]
fn test_is_newer() {
    assert!(VersionComparator::is_newer("2.0.0", "1.0.0"));
    assert!(VersionComparator::is_newer("1.1.0", "1.0.0"));
    assert!(VersionComparator::is_newer("1.0.1", "1.0.0"));
    assert!(!VersionComparator::is_newer("1.0.0", "1.0.0"));
    assert!(!VersionComparator::is_newer("1.0.0", "2.0.0"));
}

#[test]
fn test_get_latest_with_mixed_versions() {
    let versions = vec![
        "1.0.0".to_string(),
        "1.1.0-beta".to_string(),
        "1.0.1".to_string(),
        "2.0.0-SNAPSHOT".to_string(),
        "1.2.0".to_string(),
    ];

    let latest = VersionComparator::get_latest(&versions, false);
    assert_eq!(latest, Some("2.0.0-SNAPSHOT".to_string()));

    let latest_stable = VersionComparator::get_latest(&versions, true);
    assert_eq!(latest_stable, Some("1.2.0".to_string()));
}

#[test]
fn test_kotlin_version_format() {
    let v1 = Version::parse("1.9.20");
    let v2 = Version::parse("2.0.0");
    assert!(v2 > v1);
}

#[test]
fn test_android_gradle_plugin_versions() {
    let v1 = Version::parse("8.1.0");
    let v2 = Version::parse("8.2.0");
    let v3 = Version::parse("8.2.0-alpha01");
    assert!(v2 > v1);
    assert!(!v3.is_stable());
}

#[test]
fn stability_of_a_date_version() {
    assert!(Version::parse("2024.1.1").is_stable());
}

#[test]
fn a_release_is_above_its_snapshot_and_a_longer_version_is_not_below() {
    assert!(Version::parse("1.0.1") > Version::parse("1.0.0"));
    assert!(Version::parse("1.0.0") > Version::parse("1.0.0-SNAPSHOT"));
    assert!(Version::parse("1.0.0.0") >= Version::parse("1.0.0"));
}

#[test]
fn parse_classifies_each_form() {
    match Version::parse("1.2.3-rc.1+build.5").parsed {
        VersionType::Semantic(s) => {
            assert_eq!((s.major, s.minor, s.patch), (1, 2, 3));
            assert_eq!(s.pre, "rc.1");
            assert_eq!(s.build, "build.5");
        }
        other => panic!("expected a semantic version, got {:?}", other),
    }
    assert_eq!(
        Version::parse("2024.1").parsed,
        VersionType::Numeric(vec![2024, 1])
    );
    assert_eq!(
        Version::parse("1.0-SNAPSHOT").parsed,
        VersionType::Snapshot("1.0-SNAPSHOT".to_string())
    );
    assert_eq!(
        Version::parse("release-7").parsed,
        VersionType::Unknown("release-7".to_string())
    );
    assert_eq!(Version::parse("release-7").original, "release-7");
}

#[test]
fn parse_numeric_follows_the_number_syntax() {
    assert_eq!(Version::parse_numeric("1.0"), Some(vec![1, 0]));
    assert_eq!(Version::parse_numeric("+1.007"), Some(vec![1, 7]));
    assert_eq!(Version::parse_numeric("4294967295"), Some(vec![4294967295]));
    assert_eq!(Version::parse_numeric("4294967296"), None);
    assert_eq!(Version::parse_numeric("1..2"), None);
    assert_eq!(Version::parse_numeric(""), None);
    assert_eq!(Version::parse_numeric("1.-2"), None);
    assert_eq!(Version::parse_numeric("1.x"), None);
}

#[test]
fn compare_tells_each_case_of_the_order() {
    let cmp = |a: &str, b: &str| Version::parse(a).compare(&Version::parse(b));
    assert_eq!(cmp("1.0.0", "1.0.0"), Precedence::Same);
    assert_eq!(cmp("1.10.0", "1.9.0"), Precedence::Higher);
    assert_eq!(cmp("1.0.0-alpha", "1.0.0"), Precedence::Lower);
    assert_eq!(cmp("1.0.0-alpha.2", "1.0.0-alpha.10"), Precedence::Lower);
    assert_eq!(cmp("1.0", "1.0.0.0"), Precedence::Lower);
    assert_eq!(cmp("1.0", "01.0"), Precedence::Higher);
    assert_eq!(cmp("01.0", "1.0"), Precedence::Lower);
    assert_eq!(cmp("2.5", "2.10"), Precedence::Lower);
    assert_eq!(cmp("1.0-SNAPSHOT", "0.1"), Precedence::Lower);
    assert_eq!(cmp("0.1", "1.0-SNAPSHOT"), Precedence::Higher);
    assert_eq!(cmp("1.0-SNAPSHOT", "1.0-SNAPSHOT"), Precedence::Same);
    assert_eq!(cmp("1.0-SNAPSHOT", "2.0-SNAPSHOT"), Precedence::Lower);
    assert_eq!(cmp("2.0-SNAPSHOT", "1.0-SNAPSHOT"), Precedence::Higher);
    assert_eq!(cmp("abc", "abd"), Precedence::Lower);
    assert_eq!(cmp("10.0.0", "2.0"), Precedence::Lower);
}

#[test]
fn an_upgrade_goes_one_way_only() {
    let texts = [
        "1.0.0", "1.0.1", "2.0", "1.0", "1.0-SNAPSHOT", "2.0-SNAPSHOT", "abc", "1.0.0-rc1",
        "2024.1.1", "1.0.0+b1", "1.0.0+b2",
    ];
    for a in texts.iter() {
        for b in texts.iter() {
            if VersionComparator::is_newer(a, b) {
                assert!(!VersionComparator::is_newer(b, a), "{} and {}", a, b);
            }
        }
        assert!(!VersionComparator::is_newer(a, a));
    }
}

#[test]
fn get_latest_of_nothing_is_nothing() {
    let none: Vec<String> = Vec::new();
    assert_eq!(VersionComparator::get_latest(&none, false), None);
    let unstable = vec!["1.0.0-beta".to_string(), "2.0.0-rc1".to_string()];
    assert_eq!(VersionComparator::get_latest(&unstable, true), None);
    assert_eq!(
        VersionComparator::get_latest(&unstable, false),
        Some("2.0.0-rc1".to_string())
    );
}

#[test]
fn versions_with_the_same_numbers_are_told_apart_by_their_texts() {
    let versions = vec!["1.0".to_string(), "01.0".to_string()];
    assert_eq!(
        VersionComparator::get_latest(&versions, false),
        Some("1.0".to_string())
    );
    let turned = vec!["01.0".to_string(), "1.0".to_string()];
    assert_eq!(VersionComparator::get_latest(&turned, false), Some("1.0".to_string()));
    assert!(VersionComparator::is_newer("1.0", "01.0"));
    assert!(!VersionComparator::is_newer("01.0", "1.0"));
}

#[test]
fn a_comparison_flips_and_is_level_for_one_text_only() {
    let texts = [
        "1.0.0", "1.0.1", "2.0", "1.0", "01.0", "1.0-SNAPSHOT", "2.0-SNAPSHOT", "abc", "abd",
        "1.0.0-rc1", "1.0.0-SNAPSHOT", "2024.1.1", "1.0.0+b1", "1.0.0+b2", "", "10.0.0", "9.0",
    ];
    for a in texts.iter() {
        for b in texts.iter() {
            let there = Version::parse(a).compare(&Version::parse(b));
            let back = Version::parse(b).compare(&Version::parse(a));
            let flipped = match back {
                Precedence::Lower => Precedence::Higher,
                Precedence::Same => Precedence::Same,
                Precedence::Higher => Precedence::Lower,
            };
            assert_eq!(there, flipped, "{} and {}", a, b);
            assert_eq!(there == Precedence::Same, a == b, "{} and {}", a, b);
            assert_eq!(
                VersionComparator::is_newer(a, b) || VersionComparator::is_newer(b, a),
                a != b,
                "{} and {}",
                a,
                b
            );
        }
    }
}

#[test]
fn default_strategy_follows_the_version_model() {
    let strategy = DefaultVersionStrategy::shared();
    assert!(strategy.is_upgrade("1.0.0", "1.0.1"));
    assert!(!strategy.is_upgrade("1.0.1", "1.0.0"));
    assert!(!strategy.is_upgrade("1.0.0", "1.0.0"));
    let versions = vec!["1.0.0".to_string(), "1.2.0".to_string(), "1.1.0".to_string()];
    assert_eq!(strategy.select_latest(&versions, true), Some("1.2.0".to_string()));
}
