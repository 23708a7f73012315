use kopium::version::{read_number, Version, VersionParseError};

#[test]
fn v1() {
    let version: Version = "v1".parse().unwrap();
    assert_eq!(version, Version::Ga(1));
}

#[test]
fn v3alpha2() {
    let version: Version = "v3alpha2".parse().unwrap();
    assert_eq!(version, Version::Alpha(3, Some(2)));
}

#[test]
fn v2beta5() {
    let version: Version = "v2beta5".parse().unwrap();
    assert_eq!(version, Version::Beta(2, Some(5)));
}

#[test]
fn v2beta() {
    let version: Version = "v2beta".parse().unwrap();
    assert_eq!(version, Version::Beta(2, None));
}

#[test]
fn busted1() {
    let version: Version = "busted1".parse().unwrap();
    assert_eq!(version, Version::Other("busted1".to_string()));
}

#[test]
fn v() {
    let version: Version = "v".parse().unwrap();
    assert_eq!(version, Version::Other("v".to_string()));
}

#[test]
fn v1gamma2() {
    let version: Version = "v1gamma2".parse().unwrap();
    assert_eq!(version, Version::Other("v1gamma2".to_string()));
}

#[test]
fn v1gamma() {
    let version: Version = "v1gamma".parse().unwrap();
    assert_eq!(version, Version::Other("v1gamma".to_string()));
}

#[test]
fn compare() {
    assert!(Version::Ga(2) > Version::Ga(1));
    assert!(Version::Ga(1) > Version::Beta(2, None));
    assert!(Version::Ga(1) > Version::Beta(2, Some(2)));
    assert!(Version::Ga(1) > Version::Alpha(2, None));
    assert!(Version::Ga(1) > Version::Alpha(2, Some(3)));
    assert!(Version::Ga(1) > Version::Other("foo".to_string()));
    assert!(Version::Beta(1, Some(1)) > Version::Beta(1, None));
    assert!(Version::Beta(1, Some(2)) > Version::Beta(1, Some(1)));
    assert!(Version::Beta(1, None) > Version::Alpha(1, None));
    assert!(Version::Beta(1, None) > Version::Alpha(1, Some(3)));
    assert!(Version::Beta(1, None) > Version::Other("foo".to_string()));
    assert!(Version::Beta(1, Some(2)) > Version::Other("foo".to_string()));
    assert!(Version::Alpha(1, Some(1)) > Version::Alpha(1, None));
    assert!(Version::Alpha(1, Some(2)) > Version::Alpha(1, Some(1)));
    assert!(Version::Alpha(1, None) > Version::Other("foo".to_string()));
    assert!(Version::Alpha(1, Some(2)) > Version::Other("foo".to_string()));
    assert!(Version::Other("foo".to_string()) > Version::Other("bar".to_string()));
}

#[test]
fn major_number_too_large_is_an_error() {
    assert_eq!("v18446744073709551616".parse::<Version>(), Err(VersionParseError));
    assert_eq!(
        "v18446744073709551615".parse::<Version>(),
        Ok(Version::Ga(18446744073709551615))
    );
    assert_eq!(Version::parse("v99999999999999999999beta1"), Err(VersionParseError));
}

#[test]
fn minor_number_too_large_counts_as_absent() {
    assert_eq!(
        Version::parse("v1alpha99999999999999999999"),
        Ok(Version::Alpha(1, None))
    );
    assert_eq!(Version::parse("v1alpha"), Ok(Version::Alpha(1, None)));
}

#[test]
fn texts_that_are_no_version_names() {
    for text in ["", "v", "1", "V1", "v1 ", " v1", "v1alpha2x", "v1betaa", "v1beta1alpha", "vbeta1", "v1beta-1"] {
        assert_eq!(Version::parse(text), Ok(Version::Other(text.to_string())), "{text}");
    }
    assert_eq!(Version::parse("v007"), Ok(Version::Ga(7)));
    assert_eq!(Version::parse("v10beta02"), Ok(Version::Beta(10, Some(2))));
}

#[test]
fn digits_of_other_scripts_make_a_version_name_but_no_number() {
    assert_eq!(Version::parse("v\u{0661}"), Err(VersionParseError));
    assert_eq!(Version::parse("v1\u{0662}"), Err(VersionParseError));
    assert_eq!(Version::parse("v\u{0661}beta1"), Err(VersionParseError));
    assert_eq!(Version::parse("v1alpha\u{0661}"), Ok(Version::Alpha(1, None)));
    assert_eq!(Version::parse("v2beta1\u{0663}"), Ok(Version::Beta(2, None)));
    assert_eq!("v3beta\u{ff11}".parse::<Version>(), Ok(Version::Beta(3, None)));
    assert_eq!(Version::parse("v1\n"), Ok(Version::Other("v1\n".to_string())));
    assert_eq!(Version::parse("xv1"), Ok(Version::Other("xv1".to_string())));
}

#[test]
fn a_version_is_read_from_the_groups_of_a_match() {
    let group = |text: &str| Some(text.to_string());
    assert_eq!(Version::from_groups("anything", &None), Ok(Version::Other("anything".to_string())));
    assert_eq!(
        Version::from_groups("v12", &Some(vec![group("v12"), group("12"), None, None])),
        Ok(Version::Ga(12))
    );
    assert_eq!(
        Version::from_groups("v1beta", &Some(vec![group("v1beta"), group("1"), group("beta"), group("")])),
        Ok(Version::Beta(1, None))
    );
    assert_eq!(
        Version::from_groups("v1alpha7", &Some(vec![group("v1alpha7"), group("1"), group("alpha"), group("7")])),
        Ok(Version::Alpha(1, Some(7)))
    );
    assert_eq!(
        Version::from_groups("x", &Some(vec![group("x"), group("4"), group("gamma"), None])),
        Ok(Version::Beta(4, None))
    );
    assert_eq!(Version::from_groups("x", &Some(vec![group("x"), group("4")])), Ok(Version::Ga(4)));
    assert_eq!(Version::from_groups("x", &Some(vec![group("x")])), Err(VersionParseError));
    assert_eq!(Version::from_groups("x", &Some(vec![])), Err(VersionParseError));
    assert_eq!(
        Version::from_groups("x", &Some(vec![group("x"), None, group("alpha"), group("1")])),
        Err(VersionParseError)
    );
    assert_eq!(
        Version::from_groups("x", &Some(vec![group("x"), group("1x"), None, None])),
        Err(VersionParseError)
    );
}

#[test]
fn a_number_is_read_from_the_ten_digits_alone() {
    assert_eq!(read_number(""), None);
    assert_eq!(read_number("0"), Some(0));
    assert_eq!(read_number("007"), Some(7));
    assert_eq!(read_number("18446744073709551615"), Some(u64::MAX));
    assert_eq!(read_number("18446744073709551616"), None);
    assert_eq!(read_number("+5"), None);
    assert_eq!(read_number("5 "), None);
    assert_eq!(read_number("\u{0661}"), None);
}
