use std::path::PathBuf;

use s3_downloader::models::{destination_directory, AppState, AppStatus, ObjectVersion};

#[test]
fn default_state_is_empty_and_idle() {
    let state = AppState::default();

    assert!(state.profiles.is_empty());
    assert!(state.selected_profile.is_none());
    assert!(state.buckets.is_empty());
    assert!(state.selected_bucket.is_none());
    assert!(!state.manual_bucket_entry);
    assert!(state.versions.is_empty());
    assert!(state.selected_version_id.is_none());
    assert!(!state.loading_buckets);
    assert!(!state.loading_versions);
    assert!(!state.downloading);
    assert!(state.status.is_none());
}

#[test]
fn validates_and_builds_a_download_request() {
    let state = AppState {
        selected_profile: Some("default".to_string()),
        selected_bucket: Some("bucket".to_string()),
        object_key: " folder/object.txt ".to_string(),
        versions: vec![ObjectVersion {
            key: "folder/object.txt".to_string(),
            version_id: "version-1".to_string(),
            is_latest: false,
            last_modified: "2026-01-01T00:00:00Z".to_string(),
            size: 10,
        }],
        selected_version_id: Some("version-1".to_string()),
        destination: " /tmp/object.txt ".to_string(),
        ..Default::default()
    };

    let request = state
        .download_request()
        .expect("complete state should create a request");
    assert_eq!(request.profile, "default");
    assert_eq!(request.bucket, "bucket");
    assert_eq!(request.key, "folder/object.txt");
    assert_eq!(request.version_id.as_deref(), Some("version-1"));
    assert_eq!(PathBuf::from(&request.destination), PathBuf::from("/tmp/object.txt"));
}

#[test]
fn rejects_missing_download_fields() {
    let state = AppState::default();
    assert!(state.download_request().is_err());

    let state = AppState {
        selected_profile: Some("default".to_string()),
        selected_bucket: Some("bucket".to_string()),
        ..Default::default()
    };
    assert!(state.download_request().is_err());
}

#[test]
fn treats_a_blank_version_as_optional() {
    let state = AppState {
        selected_profile: Some("default".to_string()),
        selected_bucket: Some("bucket".to_string()),
        object_key: "object.txt".to_string(),
        destination: "download.txt".to_string(),
        ..Default::default()
    };

    assert_eq!(state.download_request().unwrap().version_id, None);
}

#[test]
fn suggests_the_last_s3_key_segment() {
    let mut state = AppState {
        object_key: "folder/nested/report.pdf".to_string(),
        ..Default::default()
    };
    assert_eq!(state.suggested_filename(), "report.pdf");

    state.object_key = "folder/".to_string();
    assert_eq!(state.suggested_filename(), "download");
}

#[test]
fn status_variants_are_distinct() {
    assert_ne!(
        AppStatus::Info("message".to_string()),
        AppStatus::Success("message".to_string())
    );
}

fn complete_state() -> AppState {
    AppState {
        selected_profile: Some("default".to_string()),
        selected_bucket: Some("bucket".to_string()),
        object_key: "key".to_string(),
        destination: "out.bin".to_string(),
        ..Default::default()
    }
}

#[test]
fn each_missing_field_has_its_message() {
    let mut state = complete_state();
    state.selected_profile = Some("  ".to_string());
    assert_eq!(
        state.download_request().unwrap_err(),
        "Select an AWS profile before downloading."
    );

    let mut state = complete_state();
    state.selected_bucket = None;
    assert_eq!(
        state.download_request().unwrap_err(),
        "Select an S3 bucket before downloading."
    );

    let mut state = complete_state();
    state.object_key = " \t".to_string();
    assert_eq!(
        state.download_request().unwrap_err(),
        "Enter an S3 object key before downloading."
    );

    let mut state = complete_state();
    state.destination = String::new();
    assert_eq!(
        state.download_request().unwrap_err(),
        "Choose a destination file before downloading."
    );

    let mut state = complete_state();
    state.selected_version_id = Some("gone".to_string());
    assert_eq!(
        state.download_request().unwrap_err(),
        "The selected object version is no longer available."
    );
}

#[test]
fn profile_and_bucket_are_used_as_entered() {
    let mut state = complete_state();
    state.selected_profile = Some(" default ".to_string());
    state.selected_version_id = Some("   ".to_string());
    let request = state.download_request().unwrap();
    assert_eq!(request.profile, " default ");
    assert_eq!(request.version_id, None);
}

#[test]
fn suggested_filename_edge_cases() {
    let mut state = AppState::default();
    assert_eq!(state.suggested_filename(), "download");
    state.object_key = "  plain.txt  ".to_string();
    assert_eq!(state.suggested_filename(), "plain.txt");
    state.object_key = "/".to_string();
    assert_eq!(state.suggested_filename(), "download");
    state.object_key = "a//b".to_string();
    assert_eq!(state.suggested_filename(), "b");
}

#[test]
fn selectors_are_disabled_when_unusable() {
    let mut state = AppState::default();
    assert!(state.profile_selection_disabled());
    assert!(state.bucket_selection_disabled());
    state.profiles = vec!["dev".to_string()];
    state.selected_profile = Some("dev".to_string());
    state.buckets = vec!["b".to_string()];
    assert!(!state.profile_selection_disabled());
    assert!(!state.bucket_selection_disabled());
    state.loading_buckets = true;
    assert!(state.bucket_selection_disabled());
    state.loading_buckets = false;
    state.downloading = true;
    assert!(state.profile_selection_disabled());
    assert!(state.bucket_selection_disabled());
}

#[test]
fn destination_directory_is_the_parent_or_dot() {
    assert_eq!(destination_directory("  "), None);
    assert_eq!(
        destination_directory(" /tmp/a destination/object.txt ").as_deref(),
        Some("/tmp/a destination")
    );
    assert_eq!(destination_directory("object.txt").as_deref(), Some("."));
    assert_eq!(destination_directory("/").as_deref(), Some("."));
    assert_eq!(destination_directory("/object.txt").as_deref(), Some("/"));
}
