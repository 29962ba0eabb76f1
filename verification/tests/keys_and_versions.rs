use pahkat_core::key::{PackageKey, ParseError};
use pahkat_core::version::{Version, VersionOrdering};

#[test]
fn parse_key_without_channel() {
    let k = PackageKey::parse("https://pahkat.uit.no/main#divvun-spell").unwrap();
    assert_eq!(k.repository_url, "https://pahkat.uit.no/main");
    assert_eq!(k.package_id, "divvun-spell");
    assert!(k.channel.is_none());
    assert_eq!(k.to_string(), "https://pahkat.uit.no/main#divvun-spell");
}

#[test]
fn parse_key_with_channel() {
    let k = PackageKey::parse("https://pahkat.uit.no/main#divvun-spell#nightly").unwrap();
    assert_eq!(k.repository_url, "https://pahkat.uit.no/main");
    assert_eq!(k.package_id, "divvun-spell");
    assert_eq!(k.channel.as_deref(), Some("nightly"));
    assert_eq!(k.to_string(), "https://pahkat.uit.no/main#divvun-spell#nightly");
}

#[test]
fn key_round_trip_from_fields() {
    let k = PackageKey {
        repository_url: "https://repo.example.com".to_string(),
        package_id: "pkg".to_string(),
        channel: Some("beta".to_string()),
    };
    let s = k.to_string();
    let back = PackageKey::parse(&s).unwrap();
    assert_eq!(back.repository_url, k.repository_url);
    assert_eq!(back.package_id, k.package_id);
    assert_eq!(back.channel, k.channel);
}

#[test]
fn parse_key_errors() {
    assert_eq!(PackageKey::parse("").unwrap_err(), ParseError::MissingSeparator);
    assert_eq!(
        PackageKey::parse("https://repo.example.com").unwrap_err(),
        ParseError::MissingSeparator
    );
    assert_eq!(PackageKey::parse("#pkg").unwrap_err(), ParseError::EmptyRepositoryUrl);
    assert_eq!(PackageKey::parse("repo#").unwrap_err(), ParseError::EmptyPackageId);
    assert_eq!(PackageKey::parse("repo##nightly").unwrap_err(), ParseError::EmptyPackageId);
    assert_eq!(PackageKey::parse("repo#pkg#").unwrap_err(), ParseError::EmptyChannel);
    assert_eq!(PackageKey::parse("repo#pkg#a#b").unwrap_err(), ParseError::ExtraSeparator);
}

#[test]
fn parse_version_components() {
    let v = Version::parse("1.2.3").unwrap();
    assert_eq!(v.parts, vec![1, 2, 3]);
    let v = Version::parse("0").unwrap();
    assert_eq!(v.parts, vec![0]);
    let v = Version::parse("18446744073709551615").unwrap();
    assert_eq!(v.parts, vec![u64::MAX]);
}

#[test]
fn parse_version_rejects() {
    assert!(Version::parse("").is_none());
    assert!(Version::parse("1..2").is_none());
    assert!(Version::parse(".1").is_none());
    assert!(Version::parse("1.").is_none());
    assert!(Version::parse("1.x").is_none());
    assert!(Version::parse("2.0-beta").is_none());
    assert!(Version::parse("18446744073709551616").is_none());
}

#[test]
fn compare_versions() {
    let a = Version::parse("2.0").unwrap();
    let b = Version::parse("3.0").unwrap();
    assert_eq!(a.cmp(&b), VersionOrdering::Less);
    assert_eq!(b.cmp(&a), VersionOrdering::Greater);
    let c = Version::parse("2").unwrap();
    assert_eq!(a.cmp(&c), VersionOrdering::Equal);
    let d = Version::parse("2.0.1").unwrap();
    assert_eq!(a.cmp(&d), VersionOrdering::Less);
    assert_eq!(d.cmp(&d), VersionOrdering::Equal);
    let e = Version::parse("10.0").unwrap();
    let f = Version::parse("9.9").unwrap();
    assert_eq!(e.cmp(&f), VersionOrdering::Greater);
}
