use tone_smithy::update_check::{is_newer, parse_semver, parse_tag_name};

#[test]
fn parses_tag_name_from_realistic_body() {
    let body = r#"{"url":"https://...","tag_name":"v1.3.0","name":"Tone Smithy v1.3.0"}"#;
    assert_eq!(parse_tag_name(body).as_deref(), Some("v1.3.0"));
}

#[test]
fn parses_tag_name_with_whitespace() {
    let body = r#"{ "tag_name" : "v2.0.1" }"#;
    assert_eq!(parse_tag_name(body).as_deref(), Some("v2.0.1"));
}

#[test]
fn missing_tag_name_returns_none() {
    assert_eq!(parse_tag_name(r#"{"name":"no tag here"}"#), None);
}

#[test]
fn newer_versions_are_detected() {
    assert!(is_newer("v1.3.0", "1.2.0"));
    assert!(is_newer("1.2.1", "1.2.0"));
    assert!(is_newer("2.0.0", "1.9.9"));
    assert!(is_newer("v1.2.10", "1.2.9"));
}

#[test]
fn same_or_older_versions_are_not_newer() {
    assert!(!is_newer("v1.2.0", "1.2.0"));
    assert!(!is_newer("1.2.0", "1.2.0"));
    assert!(!is_newer("v1.1.9", "1.2.0"));
    assert!(!is_newer("v1.0.0", "1.2.0"));
}

#[test]
fn malformed_tag_never_reads_as_newer() {
    assert!(!is_newer("garbage", "1.2.0"));
    assert!(!is_newer("", "1.2.0"));
    assert!(!is_newer("v", "1.2.0"));
}

#[test]
fn tag_name_missing_colon_or_quotes_is_none() {
    assert_eq!(parse_tag_name(r#"{"tag_name" "v1"}"#), None);
    assert_eq!(parse_tag_name(r#"{"tag_name": v1}"#), None);
    assert_eq!(parse_tag_name(r#"{"tag_name": "v1"#), None);
    assert_eq!(parse_tag_name(""), None);
}

#[test]
fn tag_name_takes_the_first_occurrence() {
    let body = r#"{"tag_name":"v1.0.0","x":{"tag_name":"v9.9.9"}}"#;
    assert_eq!(parse_tag_name(body).as_deref(), Some("v1.0.0"));
    assert_eq!(parse_tag_name(r#"{"tag_name":""}"#).as_deref(), Some(""));
    assert_eq!(parse_tag_name("{\"tag_name\":\t\n\"a b\"}").as_deref(), Some("a b"));
}

#[test]
fn semver_components() {
    assert_eq!(parse_semver("1.2.3"), [1, 2, 3]);
    assert_eq!(parse_semver("  v1.2.3  "), [1, 2, 3]);
    assert_eq!(parse_semver("vvv4.5"), [4, 5, 0]);
    assert_eq!(parse_semver("1. 2 .3"), [1, 2, 3]);
    assert_eq!(parse_semver("+7.8.9"), [7, 8, 9]);
    assert_eq!(parse_semver("1.2.3.4"), [1, 2, 0]);
    assert_eq!(parse_semver("1.x.3"), [1, 0, 3]);
    assert_eq!(parse_semver("-1.2.3"), [0, 2, 3]);
    assert_eq!(parse_semver("4294967295.4294967296.0"), [4294967295, 0, 0]);
    assert_eq!(parse_semver(""), [0, 0, 0]);
    assert_eq!(parse_semver("v"), [0, 0, 0]);
    assert_eq!(parse_semver("1..3"), [1, 0, 3]);
}

#[test]
fn leading_v_is_ignored() {
    for s in ["1.2.3", "0.9", "10.0.1", "", "x"] {
        let with_v = format!("v{s}");
        assert_eq!(parse_semver(&with_v), parse_semver(s));
    }
    // Text after the `v` that starts with whitespace is trimmed only when
    // it stands alone, so there the `v` is not ignored.
    assert_eq!(parse_semver("v v1"), [0, 0, 0]);
    assert_eq!(parse_semver(" v1"), [1, 0, 0]);
}

#[test]
fn newer_is_a_strict_order() {
    let versions = ["0.0.0", "0.0.1", "0.1.0", "1.0.0", "1.2.9", "1.2.10", "2.0.0"];
    for (i, a) in versions.iter().enumerate() {
        assert!(!is_newer(a, a));
        for (j, b) in versions.iter().enumerate() {
            assert_eq!(is_newer(a, b), i > j, "{a} vs {b}");
        }
    }
}
