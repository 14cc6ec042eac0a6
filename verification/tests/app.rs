use s3_downloader::app::{DownloaderApp, VersionLoadRequest};
use s3_downloader::models::{AppStatus, ObjectVersion};

fn info(message: &str) -> Option<AppStatus> {
    Some(AppStatus::Info(message.to_string()))
}

fn error(message: &str) -> Option<AppStatus> {
    Some(AppStatus::Error(message.to_string()))
}

fn version(id: &str) -> ObjectVersion {
    ObjectVersion {
        key: "key".to_string(),
        version_id: id.to_string(),
        is_latest: false,
        last_modified: "t".to_string(),
        size: 1,
    }
}

fn ready_app() -> DownloaderApp {
    let mut app = DownloaderApp::new();
    app.initialize(Ok(vec!["dev".to_string()]), Ok(()));
    assert!(app.select_profile("dev".to_string()));
    assert!(app.finish_bucket_load("dev", Ok(vec!["bucket".to_string()])));
    assert!(app.select_bucket("bucket".to_string()));
    app.set_object_key(" key ".to_string());
    app
}

#[test]
fn new_app_invites_to_choose_a_profile() {
    let app = DownloaderApp::new();
    assert_eq!(app.state.status, info("Select an AWS profile to list its S3 buckets."));
    assert!(app.state.profiles.is_empty());
    let other = DownloaderApp::default();
    assert_eq!(other.state.status, app.state.status);
}

#[test]
fn initialize_sorts_profiles_and_reports_errors() {
    let mut app = DownloaderApp::new();
    app.initialize(
        Ok(vec!["b".to_string(), "a".to_string(), "b".to_string()]),
        Ok(()),
    );
    assert_eq!(app.state.profiles, vec!["a", "b"]);
    assert_eq!(app.state.status, info("Select an AWS profile to list its S3 buckets."));

    let mut app = DownloaderApp::new();
    app.initialize(Ok(Vec::new()), Ok(()));
    assert_eq!(app.state.status, info("No AWS profiles were found in ~/.aws/config."));

    let mut app = DownloaderApp::new();
    app.initialize(Err("no config".to_string()), Err("no cli".to_string()));
    assert_eq!(app.state.status, error("no config\n\nno cli"));

    let mut app = DownloaderApp::new();
    app.initialize(Ok(vec!["a".to_string()]), Err("no cli".to_string()));
    assert_eq!(app.state.status, error("no cli"));
    assert_eq!(app.state.profiles, vec!["a"]);
}

#[test]
fn selecting_an_unknown_profile_is_refused() {
    let mut app = DownloaderApp::new();
    app.initialize(Ok(vec!["dev".to_string()]), Ok(()));
    assert!(!app.select_profile("prod".to_string()));
    assert_eq!(app.state.status, error("The selected AWS profile is no longer available."));
    assert!(app.state.selected_profile.is_none());
}

#[test]
fn selecting_a_profile_starts_loading_its_buckets() {
    let mut app = ready_app();
    assert!(app.select_profile("dev".to_string()));
    assert!(app.state.loading_buckets);
    assert!(app.state.buckets.is_empty());
    assert!(app.state.selected_bucket.is_none());
    assert_eq!(app.state.object_key, "");
    assert_eq!(app.state.status, info("Loading buckets..."));
}

#[test]
fn bucket_results_for_another_profile_are_ignored() {
    let mut app = DownloaderApp::new();
    app.initialize(Ok(vec!["dev".to_string(), "prod".to_string()]), Ok(()));
    assert!(app.select_profile("dev".to_string()));
    assert!(!app.finish_bucket_load("prod", Ok(vec!["x".to_string()])));
    assert!(app.state.loading_buckets);
    assert!(app.finish_bucket_load(
        "dev",
        Ok(vec!["z".to_string(), "a".to_string(), "z".to_string()])
    ));
    assert_eq!(app.state.buckets, vec!["a", "z"]);
    assert_eq!(app.state.status, info("Found 2 S3 bucket(s)."));
    assert!(!app.state.loading_buckets);
}

#[test]
fn bucket_errors_are_reported() {
    let mut app = DownloaderApp::new();
    app.initialize(Ok(vec!["dev".to_string()]), Ok(()));
    app.select_profile("dev".to_string());
    app.finish_bucket_load("dev", Ok(Vec::new()));
    assert_eq!(app.state.status, info("No S3 buckets were found for this profile."));

    app.select_profile("dev".to_string());
    app.finish_bucket_load("dev", Err("timeout".to_string()));
    assert_eq!(app.state.status, error("Could not load S3 buckets: timeout"));
    assert!(!app.state.manual_bucket_entry);

    app.select_profile("dev".to_string());
    app.finish_bucket_load("dev", Err("An error occurred (AccessDenied)".to_string()));
    assert!(app.state.manual_bucket_entry);
    assert_eq!(
        app.state.status,
        info("This profile cannot list buckets. Enter a bucket name manually.")
    );
    app.set_manual_bucket("  typed-bucket  ".to_string());
    assert_eq!(app.state.selected_bucket.as_deref(), Some("typed-bucket"));
    app.set_manual_bucket("   ".to_string());
    assert!(app.state.selected_bucket.is_none());
    assert!(app.select_bucket("anything".to_string()));
}

#[test]
fn manual_bucket_is_ignored_unless_enabled() {
    let mut app = ready_app();
    app.set_manual_bucket("other".to_string());
    assert_eq!(app.state.selected_bucket.as_deref(), Some("bucket"));
    assert!(!app.select_bucket("unlisted".to_string()));
}

#[test]
fn version_lookup_validates_the_form() {
    let mut app = DownloaderApp::new();
    assert_eq!(
        app.begin_version_load().unwrap_err(),
        "Select an AWS profile before listing object versions."
    );
    app.initialize(Ok(vec!["dev".to_string()]), Ok(()));
    app.select_profile("dev".to_string());
    assert_eq!(
        app.begin_version_load().unwrap_err(),
        "Select an S3 bucket before listing object versions."
    );
    app.finish_bucket_load("dev", Ok(vec!["bucket".to_string()]));
    app.select_bucket("bucket".to_string());
    assert_eq!(
        app.begin_version_load().unwrap_err(),
        "Enter an S3 object key before listing versions."
    );
    assert_eq!(
        app.state.status,
        error("Enter an S3 object key before listing versions.")
    );
}

#[test]
fn version_lookup_round_trip() {
    let mut app = ready_app();
    let request = app.begin_version_load().unwrap();
    assert_eq!(request.profile, "dev");
    assert_eq!(request.bucket, "bucket");
    assert_eq!(request.key, "key");
    assert!(app.state.loading_versions);
    assert_eq!(
        app.begin_version_load().unwrap_err(),
        "An object version lookup is already in progress."
    );
    assert!(app.finish_version_load(&request, Ok(vec![version("v1"), version("v2")])));
    assert_eq!(app.state.status, info("Found 2 object version(s)."));
    assert!(!app.state.loading_versions);
    assert!(app.select_version_id(Some("v2".to_string())));
    assert_eq!(app.state.selected_version_id.as_deref(), Some("v2"));
    assert!(!app.select_version_id(Some("v9".to_string())));
    assert!(app.state.selected_version_id.is_none());
    assert_eq!(
        app.state.status,
        error("The selected object version is no longer available.")
    );
    assert!(app.select_version_id(None));
}

#[test]
fn stale_version_responses_are_ignored() {
    let mut app = ready_app();
    let request = app.begin_version_load().unwrap();
    app.set_object_key("other".to_string());
    assert!(!app.finish_version_load(&request, Ok(vec![version("v1")])));
    assert!(app.state.versions.is_empty());

    let mut app = ready_app();
    let request = app.begin_version_load().unwrap();
    let forged = VersionLoadRequest {
        request_id: request.request_id + 1,
        ..request.clone()
    };
    assert!(!app.finish_version_load(&forged, Ok(vec![version("v1")])));
    assert!(app.finish_version_load(&request, Err("denied".to_string())));
    assert_eq!(app.state.status, error("Could not load object versions: denied"));
}

#[test]
fn empty_version_listing_uses_the_current_version() {
    let mut app = ready_app();
    let request = app.begin_version_load().unwrap();
    assert!(app.finish_version_load(&request, Ok(Vec::new())));
    assert_eq!(
        app.state.status,
        info("No versions found for this key. Download will use the current version.")
    );
}

#[test]
fn one_download_at_a_time() {
    let mut app = ready_app();
    assert_eq!(
        app.begin_download().unwrap_err(),
        "Choose a destination file before downloading."
    );
    app.set_destination("/tmp/out.bin".to_string());
    let request = app.begin_download().unwrap();
    assert_eq!(request.key, "key");
    assert_eq!(request.destination, "/tmp/out.bin");
    assert!(app.state.downloading);
    assert_eq!(app.begin_download().unwrap_err(), "A download is already in progress.");
    app.finish_download("/tmp/out.bin".to_string(), Ok(()));
    assert!(!app.state.downloading);
    assert_eq!(
        app.state.status,
        Some(AppStatus::Success("Download completed\n/tmp/out.bin".to_string()))
    );
    assert!(app.begin_download().is_ok());
    app.finish_download("/tmp/out.bin".to_string(), Err("disk full".to_string()));
    assert_eq!(app.state.status, error("Download failed: disk full"));
    app.set_error("boom".to_string());
    assert_eq!(app.state.status, error("boom"));
}
