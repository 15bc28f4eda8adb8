use ipak::version::{Version, VersionRange, VersionRangeInsertType};

#[test]
fn version_test() {
    let version1 = Version::from_str("1.2.3").unwrap();
    let version2 = Version::from_str("1.2.2-build-4").unwrap();
    let version3 = Version::from_str("2.123.12").unwrap();
    println!("version2 == version1: {}", version1 == version2);
    println!("version2 >= version1: {}", version1 >= version2);
    println!("version3 < version1: {}", version3 < version1);
    let range1 = VersionRange::from_str("< 2.0, > 1.1.3-build-1").unwrap();
    println!("Range1: {}", range1.to_string());
    println!("In Range1, version1: {}", range1.compare(&version1));
    let range_all = VersionRange::from_str("*").unwrap();
    println!("RangeAll: {}", range_all.to_string());
    println!("In RangeAll, version1: {}", range_all.compare(&version1));
    let range_exact = VersionRange::from_str("== 1.2.3").unwrap();
    println!("RangeExact: {}", range_exact.to_string());
    println!("In RangeExact, version1: {}", range_exact.compare(&version1));
    let range_debug = VersionRange::from_str("<= 2.0, = 2.0").unwrap();
    assert_eq!(range_debug.to_string(), "= 2.0");
    let conflict_range = VersionRange::from_str(">= 2.0, < 1.0");
    println!("Conflict Range: {:?}", conflict_range);
}

#[test]
fn version_comparisons() {
    let version1 = Version::from_str("1.2.3").unwrap();
    let version2 = Version::from_str("1.2.2-build-4").unwrap();
    let version3 = Version::from_str("2.123.12").unwrap();
    assert!(version1 != version2);
    assert!(version1 >= version2);
    assert!(!(version3 < version1));
    assert!(version2 < version1);
    assert_eq!(version1.precedence(&version2), 1);
    assert_eq!(version2.precedence(&version1), -1);
    assert_eq!(version3.precedence(&version3), 0);
}

#[test]
fn version_order_by_numbers_only() {
    let a = Version::from_str("1.0").unwrap();
    let b = Version::from_str("1-0").unwrap();
    assert_eq!(a.precedence(&b), 0);
    assert!(a != b);
    let shorter = Version::from_str("1.0").unwrap();
    let longer = Version::from_str("1.0.0").unwrap();
    assert_eq!(shorter.precedence(&longer), -1);
}

#[test]
fn version_needs_a_number() {
    match Version::from_str("beta") {
        Err(e) => assert_eq!(e, "There is no values for Version struct."),
        Ok(_) => panic!("no number"),
    }
    assert_eq!(Version::from_str("v2").unwrap().to_string(), "v2");
}

#[test]
fn version_number_too_large_is_dropped() {
    let big = Version::from_str("99999999999.3").unwrap();
    let small = Version::from_str("3").unwrap();
    assert_eq!(big.precedence(&small), 0);
    assert!(Version::from_str("99999999999").is_err());
}

#[test]
fn version_default_is_one() {
    assert_eq!(Version::default().to_string(), "1.0.0");
}

#[test]
fn range_parses_and_accepts() {
    let range1 = VersionRange::from_str("< 2.0, > 1.1.3-build-1").unwrap();
    assert_eq!(range1.to_string(), "< 2.0, > 1.1.3-build-1");
    assert!(range1.compare(&Version::from_str("1.2.3").unwrap()));
    assert!(!range1.compare(&Version::from_str("2.0").unwrap()));
    assert!(!range1.compare(&Version::from_str("1.1.3").unwrap()));
    let range_all = VersionRange::from_str("  *  ").unwrap();
    assert_eq!(range_all.to_string(), "*");
    assert!(range_all.compare(&Version::from_str("0.0.1").unwrap()));
    let range_exact = VersionRange::from_str("== 1.2.3").unwrap();
    assert_eq!(range_exact.to_string(), "= 1.2.3");
    assert!(range_exact.compare(&Version::from_str("1.2.3").unwrap()));
    assert!(!range_exact.compare(&Version::from_str("1.2.3.0").unwrap()));
    let bare = VersionRange::from_str("1.5").unwrap();
    assert_eq!(bare.to_string(), "= 1.5");
}

#[test]
fn range_errors() {
    match VersionRange::from_str(">= 2.0, < 1.0") {
        Err(e) => assert_eq!(e, "Conflicting version range: >= 2.0, < 1.0"),
        Ok(_) => panic!("conflict"),
    }
    match VersionRange::from_str("~> 1.0") {
        Err(e) => assert_eq!(e, "Invalid relation symbol: ~>"),
        Ok(_) => panic!("bad symbol"),
    }
    match VersionRange::from_str(">= 1 2") {
        Err(e) => assert_eq!(e, "Invalid range format: >= 1 2"),
        Ok(_) => panic!("too many tokens"),
    }
    match VersionRange::from_str(">= x") {
        Err(e) => assert_eq!(e, "There is no values for Version struct."),
        Ok(_) => panic!("no number"),
    }
    match VersionRange::from_str("") {
        Err(e) => assert_eq!(e, "Invalid range format: "),
        Ok(_) => panic!("empty"),
    }
}

#[test]
fn range_merges_equal_bounds() {
    let r = VersionRange::from_str(">= 1.0, <= 1.0").unwrap();
    assert_eq!(r.to_string(), "= 1.0");
    let r = VersionRange::from_str("> 1.0, >= 0.5").unwrap();
    assert_eq!(r.to_string(), ">= 0.5, > 1.0");
    let r = VersionRange::from_str("< 3.0, < 2.0").unwrap();
    assert_eq!(r.to_string(), "< 2.0");
}

#[test]
fn insert_to_range_data_none_stays_none() {
    let v = Version::from_str("1.0").unwrap();
    assert!(v.insert_to_range_data(None, VersionRangeInsertType::ExactlyEqual).is_none());
}

#[test]
fn version_range_default_accepts_all() {
    let r = VersionRange::default();
    assert_eq!(r.to_string(), "*");
    assert!(r.compare(&Version::from_str("123").unwrap()));
}

#[test]
fn range_text_reads_back() {
    let r = VersionRange::from_str(">= 1.0, < 2.0").unwrap();
    assert_eq!(r.to_string(), "< 2.0, >= 1.0");
    let again = VersionRange::from_str(&r.to_string()).unwrap();
    assert_eq!(again.to_string(), r.to_string());
    let star = VersionRange::from_str("*").unwrap();
    assert_eq!(VersionRange::from_str(&star.to_string()).unwrap().to_string(), "*");
}

#[test]
fn range_text_in_written_order_can_conflict() {
    let r = VersionRange::from_str("> 2.0, <= 2.0").unwrap();
    assert_eq!(r.to_string(), "<= 2.0, > 2.0");
    assert_eq!(
        VersionRange::from_str(&r.to_string()).err(),
        Some("Conflicting version range: <= 2.0, > 2.0".to_string())
    );
}
