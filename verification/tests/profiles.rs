use s3_downloader::profiles::{config_path, load_profiles, parse_profiles};

#[test]
fn parses_and_sorts_supported_profile_sections() {
    let config = r#"
[profile zeta]
region = eu-west-1

[default]
region = us-east-1

[profile alpha]
region = us-west-2

[profile zeta]
output = json
"#;

    assert_eq!(parse_profiles(config), vec!["alpha", "default", "zeta"]);
}

#[test]
fn ignores_unrelated_and_malformed_sections() {
    let config = r#"
[sso-session corp]
sso_start_url = https://example.com/start

[profile]
region = us-east-1

profile missing-brackets
[profile   ]
[profile valid]
region = us-east-1
"#;

    assert_eq!(parse_profiles(config), vec!["valid"]);
}

#[test]
fn loads_profiles_from_a_config_file() {
    let contents = "[default]\n[profile test]\n".to_string();
    let profiles = load_profiles("/tmp/s3-downloader-profile-test", Ok(contents))
        .expect("temporary config should parse");

    assert_eq!(profiles, vec!["default", "test"]);
}

#[test]
fn reports_missing_config_path() {
    let error = load_profiles(
        "/definitely/missing/s3-downloader-config",
        Err("No such file or directory (os error 2)".to_string()),
    )
    .expect_err("missing config should fail");

    assert!(error.contains("Unable to read AWS config"));
    assert!(error.contains("s3-downloader-config"));
    assert_eq!(
        error,
        "Unable to read AWS config at /definitely/missing/s3-downloader-config: No such file or directory (os error 2)"
    );
}

#[test]
fn handles_crlf_tabs_and_inner_whitespace() {
    let config = "\t[ profile  spaced name ]\r\n[default]\r\n  [profile b]  \n[profile a]";
    assert_eq!(parse_profiles(config), vec!["a", "b", "default", "spaced name"]);
}

#[test]
fn ignores_headers_that_are_not_profiles() {
    let config = "[\n]\n[]\n[profile\n[profilex]\n[defaults]\n[ default ]\n";
    assert_eq!(parse_profiles(config), vec!["default"]);
}

#[test]
fn empty_config_has_no_profiles() {
    assert!(parse_profiles("").is_empty());
    assert!(parse_profiles("\n\n").is_empty());
}

#[test]
fn profile_order_and_repetition_do_not_matter() {
    let one = parse_profiles("[profile b]\n[profile a]\n[profile b]\n");
    let two = parse_profiles("[profile a]\n[profile b]\n");
    assert_eq!(one, two);
}

#[test]
fn config_path_joins_home() {
    assert_eq!(config_path(Some("/home/user")).unwrap(), "/home/user/.aws/config");
    assert_eq!(config_path(Some("/home/user/")).unwrap(), "/home/user/.aws/config");
    assert_eq!(config_path(Some("")).unwrap(), ".aws/config");
    assert_eq!(
        config_path(None).unwrap_err(),
        "Unable to locate your home directory (HOME is not set)."
    );
}

#[test]
fn parsing_joined_texts_gives_the_sorted_union() {
    let a = "[profile zeta]\n[default]\r";
    let b = "[profile alpha]\n[profile zeta]";
    let mut union = parse_profiles(a);
    union.extend(parse_profiles(b));
    union.sort();
    union.dedup();
    assert_eq!(parse_profiles(&format!("{a}\n{b}")), union);
    assert_eq!(union, vec!["alpha", "default", "zeta"]);
}
