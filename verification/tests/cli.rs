use s3_downloader::cli::{
    aws_cli_candidates, check_args, check_aws_cli, command_failure, command_start_error,
    download_object, download_object_args, is_access_denied_error, list_buckets,
    list_buckets_args, list_object_versions, list_object_versions_args, parse_bucket_names,
    parse_object_versions, CommandOutcome,
};

#[test]
fn list_command_keeps_profile_as_one_argument() {
    let values = list_buckets_args("profile with spaces");

    assert_eq!(
        values[0..4],
        ["s3api", "list-buckets", "--profile", "profile with spaces"]
    );
    assert!(values.contains(&"--query".to_string()));
    assert!(values.contains(&"--output".to_string()));
}

#[test]
fn list_versions_command_keeps_key_and_profile_as_one_argument() {
    let values = list_object_versions_args(
        "profile with spaces",
        "bucket-name",
        "folder/object with spaces and \"quotes\".txt",
    );

    assert_eq!(
        values[0..6],
        [
            "s3api",
            "list-object-versions",
            "--bucket",
            "bucket-name",
            "--prefix",
            "folder/object with spaces and \"quotes\".txt"
        ]
    );
    assert!(values.contains(&"profile with spaces".to_string()));
    assert!(!values.contains(&"--query".to_string()));
    assert!(!values.contains(&"--no-paginate".to_string()));
}

#[test]
fn download_command_keeps_paths_and_keys_as_one_argument() {
    let values = download_object_args(
        "profile name",
        "bucket-name",
        "folder/object with spaces.txt",
        None,
        "/tmp/a destination/object.txt",
    );

    assert!(values.contains(&"folder/object with spaces.txt".to_string()));
    assert!(values.contains(&"/tmp/a destination/object.txt".to_string()));
    assert!(!values.contains(&"--version-id".to_string()));
}

#[test]
fn download_command_includes_a_version_when_given() {
    let values = download_object_args(
        "default",
        "bucket",
        "object",
        Some("version id"),
        "download.bin",
    );
    let version_index = values
        .iter()
        .position(|value| value == "--version-id")
        .expect("version flag should be present");

    assert_eq!(values[version_index + 1], "version id");
}

#[test]
fn download_command_skips_an_empty_version() {
    let values = download_object_args("p", "b", "k", Some(""), "d");
    assert_eq!(
        values,
        vec!["s3api", "get-object", "--bucket", "b", "--key", "k", "--profile", "p", "d", "--no-cli-pager"]
    );
}

#[test]
fn check_command_asks_for_the_version() {
    assert_eq!(check_args(), vec!["--version"]);
}

#[test]
fn parses_sorted_unique_bucket_names() {
    let json = br#"["zeta", "alpha", "zeta"]"#;
    assert_eq!(
        parse_bucket_names(json).expect("bucket JSON should parse"),
        vec!["alpha", "zeta"]
    );
}

#[test]
fn reports_malformed_bucket_json() {
    let error = parse_bucket_names(b"not json").expect_err("malformed JSON should fail");
    assert!(error.contains("invalid bucket JSON"));
}

#[test]
fn bucket_json_of_the_wrong_shape_is_malformed() {
    let error = parse_bucket_names(br#"{"Buckets": []}"#).unwrap_err();
    assert!(error.starts_with("AWS CLI returned invalid bucket JSON: "));
    assert_eq!(parse_bucket_names(b"[]").unwrap(), Vec::<String>::new());
}

#[test]
fn parses_exact_object_versions_in_latest_first_order() {
    let json = br#"{
        "Versions": [
            {
                "Key": "folder/other.txt",
                "VersionId": "other",
                "IsLatest": true,
                "LastModified": "2026-02-01T00:00:00Z",
                "Size": 5
            },
            {
                "Key": "folder/object.txt",
                "VersionId": "older",
                "IsLatest": false,
                "LastModified": "2026-01-01T00:00:00Z",
                "Size": 12
            },
            {
                "Key": "folder/object.txt",
                "VersionId": "latest",
                "IsLatest": true,
                "LastModified": "2026-02-01T00:00:00Z",
                "Size": 24
            },
            {
                "Key": "folder/object.txt",
                "VersionId": "newer",
                "IsLatest": false,
                "LastModified": "2026-03-01T00:00:00Z",
                "Size": 36
            }
        ],
        "DeleteMarkers": [
            {
                "Key": "folder/object.txt",
                "VersionId": "deleted",
                "IsLatest": false
            }
        ]
    }"#;

    let versions = parse_object_versions(json, "folder/object.txt")
        .expect("object version JSON should parse");

    assert_eq!(
        versions
            .iter()
            .map(|version| version.version_id.as_str())
            .collect::<Vec<_>>(),
        vec!["latest", "newer", "older"]
    );
    assert!(versions[0].is_latest);
    assert_eq!(versions[0].size, 24);
    assert!(
        versions
            .iter()
            .all(|version| version.key == "folder/object.txt")
    );
}

#[test]
fn parses_empty_object_version_results() {
    let versions = parse_object_versions(br#"{"Versions": []}"#, "object.txt")
        .expect("empty object version JSON should parse");
    assert!(versions.is_empty());
}

#[test]
fn reports_malformed_object_version_json() {
    let error = parse_object_versions(b"not json", "object.txt")
        .expect_err("malformed object version JSON should fail");
    assert!(error.contains("invalid object version JSON"));

    let error = parse_object_versions(br#"{}"#, "object.txt")
        .expect_err("missing Versions should fail");
    assert!(error.contains("missing a Versions array"));
}

#[test]
fn reports_each_missing_version_field() {
    let cases: [(&[u8], &str); 6] = [
        (br#"{"Versions": [{"VersionId": "v"}]}"#, "AWS CLI returned an object version without a Key."),
        (br#"{"Versions": [{"Key": "k"}]}"#, "AWS CLI returned an object version without a VersionId."),
        (
            br#"{"Versions": [{"Key": "k", "VersionId": "v", "IsLatest": "yes"}]}"#,
            "AWS CLI returned an object version without a valid IsLatest value.",
        ),
        (
            br#"{"Versions": [{"Key": "k", "VersionId": "v", "IsLatest": true}]}"#,
            "AWS CLI returned an object version without a LastModified value.",
        ),
        (
            br#"{"Versions": [{"Key": "k", "VersionId": "v", "IsLatest": true, "LastModified": "t", "Size": -1}]}"#,
            "AWS CLI returned an object version without a valid Size.",
        ),
        (br#"{"Versions": {}}"#, "AWS CLI object version JSON is missing a Versions array."),
    ];
    for (json, message) in cases {
        assert_eq!(parse_object_versions(json, "k").unwrap_err(), message);
    }
}

#[test]
fn other_keys_are_skipped_before_their_fields_are_checked() {
    let json = br#"{"Versions": [{"Key": "other"}, {"Key": "k", "VersionId": "v", "IsLatest": false, "LastModified": "t", "Size": 3}]}"#;
    let versions = parse_object_versions(json, "k").unwrap();
    assert_eq!(versions.len(), 1);
    assert_eq!(versions[0].version_id, "v");
    assert_eq!(versions[0].size, 3);
}

#[test]
fn equal_versions_keep_their_order_and_ids_break_ties() {
    let json = br#"{"Versions": [
        {"Key": "k", "VersionId": "b", "IsLatest": false, "LastModified": "t", "Size": 1},
        {"Key": "k", "VersionId": "a", "IsLatest": false, "LastModified": "t", "Size": 2},
        {"Key": "k", "VersionId": "a", "IsLatest": false, "LastModified": "t", "Size": 3}
    ]}"#;
    let versions = parse_object_versions(json, "k").unwrap();
    let order: Vec<(String, u64)> = versions
        .iter()
        .map(|v| (v.version_id.clone(), v.size))
        .collect();
    assert_eq!(
        order,
        vec![("a".to_string(), 2), ("a".to_string(), 3), ("b".to_string(), 1)]
    );
}

#[test]
fn start_errors_and_failures_are_explained() {
    assert_eq!(
        command_start_error(true, "checking for the AWS CLI", "ignored"),
        "The AWS CLI is not installed or not available on PATH while checking for the AWS CLI."
    );
    assert_eq!(
        command_start_error(false, "op", "permission denied"),
        "Unable to start the AWS CLI while op: permission denied"
    );
    assert_eq!(
        command_failure("Listing", "  boom \n", "exit status: 1"),
        "Listing failed: boom"
    );
    assert_eq!(
        command_failure("Listing", " \n", "exit status: 2"),
        "Listing failed with status exit status: 2."
    );
}

fn finished(success: bool, stdout: &[u8], stderr: &str) -> CommandOutcome {
    CommandOutcome::Finished {
        success,
        stdout: stdout.to_vec(),
        stderr: stderr.to_string(),
        status: "exit status: 1".to_string(),
    }
}

#[test]
fn check_aws_cli_reports_each_outcome() {
    assert_eq!(check_aws_cli(finished(true, b"aws-cli/2", "")), Ok(()));
    assert_eq!(
        check_aws_cli(finished(false, b"", "bad")),
        Err("Checking for the AWS CLI failed: bad".to_string())
    );
    assert_eq!(
        check_aws_cli(CommandOutcome::NotStarted { not_found: true, error: String::new() }),
        Err("The AWS CLI is not installed or not available on PATH while checking for the AWS CLI.".to_string())
    );
}

#[test]
fn list_buckets_interprets_a_run() {
    assert_eq!(
        list_buckets("dev", finished(true, br#"["b", "a"]"#, "")).unwrap(),
        vec!["a", "b"]
    );
    assert_eq!(
        list_buckets("dev", finished(false, b"", "An error occurred (AccessDenied)")).unwrap_err(),
        "Listing S3 buckets for profile 'dev' failed: An error occurred (AccessDenied)"
    );
}

#[test]
fn list_object_versions_interprets_a_run() {
    let json = br#"{"Versions": [{"Key": "k", "VersionId": "v", "IsLatest": true, "LastModified": "t", "Size": 9}]}"#;
    let versions = list_object_versions("p", "b", "k", finished(true, json, "")).unwrap();
    assert_eq!(versions[0].version_id, "v");
    assert_eq!(
        list_object_versions("p", "b", "k", finished(false, b"", "")).unwrap_err(),
        "Listing object versions for s3://b/k failed with status exit status: 1."
    );
}

#[test]
fn download_object_interprets_a_run() {
    assert_eq!(download_object("b", "k", finished(true, b"{}", "")), Ok(()));
    assert_eq!(
        download_object("b", "k", finished(false, b"", "NoSuchKey")),
        Err("Downloading s3://b/k failed: NoSuchKey".to_string())
    );
}

#[test]
fn access_denied_errors_are_recognised() {
    assert!(is_access_denied_error(
        "An error occurred (AccessDenied) when calling the ListBuckets operation: Access Denied"
    ));
    assert!(!is_access_denied_error("An error occurred (ExpiredToken)"));
    assert!(!is_access_denied_error(""));
}

#[test]
fn candidates_follow_path_then_fallbacks() {
    let dirs = vec!["/bin".to_string(), "/usr/bin/".to_string(), String::new()];
    assert_eq!(
        aws_cli_candidates(&dirs),
        vec![
            "/bin/aws",
            "/usr/bin/aws",
            "aws",
            "/usr/local/bin/aws",
            "/opt/homebrew/bin/aws",
            "/usr/local/aws-cli/v2/current/bin/aws"
        ]
    );
}
