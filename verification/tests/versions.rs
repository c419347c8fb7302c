use clipdate::error::UpdateError;
use clipdate::version::{
    captured_version, combine_output, combine_streams, installed_version, parse_version, Version,
    VersionPattern,
};

#[test]
fn test_parse_version() {
    let re = VersionPattern::new(r"(\d+\.\d+\.\d+)").unwrap();

    let v = parse_version("v1.2.3", &re).unwrap();
    assert_eq!(v, Version::parse("1.2.3").unwrap());

    let out = "cli version 10.5.1-beta (commit 12345)";
    let v = parse_version(out, &re).unwrap();
    assert_eq!(v, Version::parse("10.5.1").unwrap());

    assert!(parse_version("no version here", &re).is_err());
}

#[test]
fn a_version_is_written_as_it_was_read() {
    for text in [
        "0.0.0",
        "1.2.3",
        "18446744073709551615.0.1",
        "1.0.0-alpha.1",
        "1.0.0+build.5",
        "1.0.0-rc.1+20130313144700",
    ] {
        assert_eq!(Version::parse(text).unwrap().to_text(), text);
    }
    for text in ["", "1", "1.2", "v1.2.3", "1.2.3-", "01.2.3", "1.2.3 ", "18446744073709551616.0.0"] {
        assert!(Version::parse(text).is_err(), "{}", text);
    }
    assert_eq!(Version::parse("").unwrap_err(), "empty string, expected a semver version");
    assert_eq!(
        Version::parse("1.2").unwrap_err(),
        "unexpected end of input while parsing minor version number"
    );
}

#[test]
fn versions_are_ordered() {
    let ascending = [
        "0.9.9",
        "1.0.0-alpha",
        "1.0.0-alpha.1",
        "1.0.0-beta",
        "1.0.0-beta.2",
        "1.0.0-beta.11",
        "1.0.0",
        "1.0.1",
        "1.2.0",
        "2.0.0",
        "10.0.0",
    ];
    for i in 0..ascending.len() {
        let a = Version::parse(ascending[i]).unwrap();
        for j in 0..ascending.len() {
            let b = Version::parse(ascending[j]).unwrap();
            assert_eq!(a.at_least(&b), i >= j, "{} {}", ascending[i], ascending[j]);
        }
    }
}

#[test]
fn an_invalid_pattern_is_refused() {
    assert!(VersionPattern::new("(").unwrap_err().contains("unclosed group"));
    assert_eq!(VersionPattern::new("a(b)c").unwrap().as_str(), "a(b)c");
}

#[test]
fn the_first_group_of_the_first_match_counts() {
    let re = VersionPattern::new(r"v(\d+)\.(\d+)").unwrap();
    assert_eq!(re.find("x v3.4 v5.6"), Some("3".to_string()));
    assert_eq!(re.find("nothing"), None);
    let optional = VersionPattern::new(r"a(b)?").unwrap();
    assert_eq!(optional.find("a"), None);
    let none = VersionPattern::new("abc").unwrap();
    assert_eq!(none.find("abc"), None);
}

#[test]
fn a_missing_version_is_told() {
    let re = VersionPattern::new("x(y)").unwrap();
    match parse_version("zzz", &re) {
        Err(UpdateError::VersionNotFound { pattern, output }) => {
            assert_eq!(pattern, "x(y)");
            assert_eq!(output, "zzz");
        },
        _ => panic!(),
    }
    match parse_version("xy", &re) {
        Err(e) => {
            assert!(matches!(e, UpdateError::NotSemver { .. }));
            assert_eq!(
                e.message(),
                "'y' is not a valid semver: unexpected character 'y' while parsing major version number"
            );
        },
        _ => panic!(),
    }
    assert!(matches!(
        captured_version(None, "p", "o"),
        Err(UpdateError::VersionNotFound { .. })
    ));
    assert_eq!(captured_version(Some("1.0.0".to_string()), "p", "o").unwrap().to_text(), "1.0.0");
}

#[test]
fn both_streams_are_searched() {
    assert_eq!(combine_streams(" a \n", "\tb\r\n"), "a\nb");
    assert_eq!(combine_streams("", ""), "");
    assert_eq!(combine_streams("v1.2.3\n", ""), "v1.2.3");
    assert_eq!(combine_streams(" ", " v1.2.3\n"), "v1.2.3");
    assert_eq!(combine_output(b"x\xffy\n", b""), "x\u{fffd}y");
    let re = VersionPattern::new(r"(\d+\.\d+\.\d+)").unwrap();
    let from_stderr = combine_output(b"", b"tool 1.4.2\n");
    assert_eq!(installed_version(Some(from_stderr), &re).unwrap().to_text(), "1.4.2");
    let from_stdout = combine_output(b"tool 1.4.2\n", b"");
    assert_eq!(installed_version(Some(from_stdout), &re).unwrap().to_text(), "1.4.2");
    assert!(installed_version(Some("no".to_string()), &re).is_none());
    assert!(installed_version(None, &re).is_none());
}
