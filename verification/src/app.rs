//! The application's state transitions: each user action or finished
//! background job takes the form state to its next state.

use vstd::prelude::*;

use crate::cli::{access_denied, is_access_denied_error};
use crate::models::{
    contains_version, download_request_of, empty_state, has_version, missing, opt_view,
    request_result_view, version_views, AppState, AppStateView, AppStatus, DownloadRequest,
    DownloadRequestView, ObjectVersion, ObjectVersionView, StatusView,
};
use crate::text::{
    blank, concat, concat3, decimal, decimal_string, is_blank, sort_dedup, sorted_set, trim,
    trimmed, views,
};

verus! {

/// A request to list the versions of one object, tagged with the number that
/// tells its response apart from those of earlier requests.
#[derive(Debug, Clone, PartialEq, Eq)]
pub struct VersionLoadRequest {
    pub profile: String,
    pub bucket: String,
    pub key: String,
    pub request_id: u64,
}

/// Mathematical model of a [`VersionLoadRequest`].
pub struct VersionLoadRequestView {
    pub profile: Seq<char>,
    pub bucket: Seq<char>,
    pub key: Seq<char>,
    pub request_id: u64,
}

impl View for VersionLoadRequest {
    type V = VersionLoadRequestView;

    open spec fn view(&self) -> VersionLoadRequestView {
        VersionLoadRequestView {
            profile: self.profile@,
            bucket: self.bucket@,
            key: self.key@,
            request_id: self.request_id,
        }
    }
}

/// The number of the latest version request. Only [`DownloaderApp`]
/// draws new numbers: the value cannot be set from outside.
pub struct RequestNumber {
    value: u64,
}

impl View for RequestNumber {
    type V = u64;

    closed spec fn view(&self) -> u64 {
        self.value
    }
}

impl RequestNumber {
    /// The number before any request.
    fn zero() -> (r: Self)
        ensures
            r@ == 0,
    {
        RequestNumber { value: 0 }
    }

    /// Draws the next number, staying at the largest value once there.
    fn advance(&mut self)
        ensures
            final(self)@ == next_id(old(self)@),
    {
        self.value = self.value.saturating_add(1);
    }

    /// The current number.
    pub fn get(&self) -> (r: u64)
        ensures
            r == self@,
    {
        self.value
    }
}

/// The application: the form state and the number of the latest version
/// request.
pub struct DownloaderApp {
    pub state: AppState,
    pub next_version_request_id: RequestNumber,
}

/// Mathematical model of a [`DownloaderApp`].
pub struct AppView {
    pub state: AppStateView,
    /// The number of the latest version request; responses to other
    /// requests are ignored.
    pub request_id: u64,
}

impl View for DownloaderApp {
    type V = AppView;

    open spec fn view(&self) -> AppView {
        AppView { state: self.state@, request_id: self.next_version_request_id@ }
    }
}

// ---------------------------------------------------------------------------
// The transitions, stated over the model

/// `id + 1`, staying at the largest value once there.
pub open spec fn next_id(id: u64) -> u64 {
    if id == u64::MAX {
        id
    } else {
        (id + 1) as u64
    }
}

/// The state with any listed or selected version, and any lookup in
/// progress, forgotten.
pub open spec fn without_versions(s: AppStateView) -> AppStateView {
    AppStateView { versions: seq![], selected_version_id: None, loading_versions: false, ..s }
}

/// The application with its version information forgotten and its request
/// number advanced, so that responses to earlier requests are ignored.
pub open spec fn invalidated(a: AppView) -> AppView {
    AppView { state: without_versions(a.state), request_id: next_id(a.request_id) }
}

/// The application with a new status.
pub open spec fn with_status(a: AppView, status: StatusView) -> AppView {
    AppView { state: AppStateView { status: Some(status), ..a.state }, request_id: a.request_id }
}

/// The initial application: empty, inviting to choose a profile.
pub open spec fn initial_app() -> AppView {
    AppView {
        state: AppStateView {
            status: Some(StatusView::Info("Select an AWS profile to list its S3 buckets."@)),
            ..empty_state()
        },
        request_id: 0,
    }
}

/// The status after start-up, given the errors of loading the profiles and
/// of checking for the tool, and whether any profile was found.
pub open spec fn startup_status(
    profiles_error: Option<Seq<char>>,
    cli_error: Option<Seq<char>>,
    no_profiles: bool,
) -> StatusView {
    match (profiles_error, cli_error) {
        (Some(p), Some(c)) => StatusView::Error(p + "\n\n"@ + c),
        (Some(p), None) => StatusView::Error(p),
        (None, Some(c)) => StatusView::Error(c),
        (None, None) => if no_profiles {
            StatusView::Info("No AWS profiles were found in ~/.aws/config."@)
        } else {
            StatusView::Info("Select an AWS profile to list its S3 buckets."@)
        },
    }
}

/// Start-up: takes the loaded profiles (their distinct names, sorted) and
/// reports every error.
pub open spec fn initialize_step(
    a: AppView,
    profiles: Result<Seq<Seq<char>>, Seq<char>>,
    cli: Result<(), Seq<char>>,
) -> AppView {
    let list = match profiles {
        Ok(p) => sorted_set(p),
        Err(_) => a.state.profiles,
    };
    let status = startup_status(
        match profiles {
            Ok(_) => None,
            Err(e) => Some(e),
        },
        match cli {
            Ok(_) => None,
            Err(e) => Some(e),
        },
        list.len() == 0,
    );
    AppView {
        state: AppStateView { profiles: list, status: Some(status), ..a.state },
        request_id: a.request_id,
    }
}

/// Choosing a profile: refused unless it is a loaded one; otherwise every
/// choice made under the previous profile is forgotten and its buckets
/// start loading.
pub open spec fn select_profile_step(a: AppView, profile: Seq<char>) -> (AppView, bool) {
    if !a.state.profiles.contains(profile) {
        (with_status(a, StatusView::Error("The selected AWS profile is no longer available."@)), false)
    } else {
        let b = invalidated(a);
        (
            AppView {
                state: AppStateView {
                    selected_profile: Some(profile),
                    buckets: seq![],
                    selected_bucket: None,
                    manual_bucket_entry: false,
                    object_key: seq![],
                    loading_buckets: true,
                    status: Some(StatusView::Info("Loading buckets..."@)),
                    ..b.state
                },
                request_id: b.request_id,
            },
            true,
        )
    }
}

/// The status after the buckets of a profile were listed.
pub open spec fn buckets_found_status(buckets: Seq<Seq<char>>) -> StatusView {
    if buckets.len() == 0 {
        StatusView::Info("No S3 buckets were found for this profile."@)
    } else {
        StatusView::Info("Found "@ + decimal(buckets.len()) + " S3 bucket(s)."@)
    }
}

/// The end of a bucket listing: ignored unless it is for the selected
/// profile. A denied listing switches to entering the bucket by hand.
pub open spec fn finish_bucket_load_step(
    a: AppView,
    profile: Seq<char>,
    result: Result<Seq<Seq<char>>, Seq<char>>,
) -> (AppView, bool) {
    if a.state.selected_profile != Some(profile) {
        (a, false)
    } else {
        let s = AppStateView { loading_buckets: false, selected_bucket: None, ..a.state };
        let next = match result {
            Ok(found) => AppStateView {
                buckets: sorted_set(found),
                status: Some(buckets_found_status(sorted_set(found))),
                ..s
            },
            Err(e) => if access_denied(e) {
                AppStateView {
                    buckets: seq![],
                    manual_bucket_entry: true,
                    status: Some(
                        StatusView::Info(
                            "This profile cannot list buckets. Enter a bucket name manually."@,
                        ),
                    ),
                    ..s
                }
            } else {
                AppStateView {
                    buckets: seq![],
                    status: Some(StatusView::Error("Could not load S3 buckets: "@ + e)),
                    ..s
                }
            },
        };
        (AppView { state: next, request_id: a.request_id }, true)
    }
}

/// Choosing a bucket: refused unless it is listed or buckets are entered by
/// hand; choosing another bucket forgets the versions.
pub open spec fn select_bucket_step(a: AppView, bucket: Seq<char>) -> (AppView, bool) {
    if !a.state.manual_bucket_entry && !a.state.buckets.contains(bucket) {
        (a, false)
    } else if a.state.selected_bucket == Some(bucket) {
        (a, true)
    } else {
        let b = invalidated(a);
        (
            AppView {
                state: AppStateView {
                    selected_bucket: Some(bucket),
                    status: Some(
                        StatusView::Info(
                            "Enter an object key and press Enter to list its versions."@,
                        ),
                    ),
                    ..b.state
                },
                request_id: b.request_id,
            },
            true,
        )
    }
}

/// Typing a bucket name by hand: ignored unless buckets are entered by
/// hand; the trimmed name is selected, none when it is blank.
pub open spec fn set_manual_bucket_step(a: AppView, value: Seq<char>) -> AppView {
    if !a.state.manual_bucket_entry {
        a
    } else {
        let b = invalidated(a);
        AppView {
            state: AppStateView {
                selected_bucket: if trim(value).len() == 0 {
                    None
                } else {
                    Some(trim(value))
                },
                ..b.state
            },
            request_id: b.request_id,
        }
    }
}

/// Typing the object key: a different key forgets the versions.
pub open spec fn set_object_key_step(a: AppView, value: Seq<char>) -> AppView {
    if a.state.object_key == value {
        a
    } else {
        let b = invalidated(a);
        AppView { state: AppStateView { object_key: value, ..b.state }, request_id: b.request_id }
    }
}

/// What is missing before versions can be listed, if anything.
pub open spec fn version_request_error(s: AppStateView) -> Option<Seq<char>> {
    if s.loading_versions {
        Some("An object version lookup is already in progress."@)
    } else if missing(s.selected_profile) {
        Some("Select an AWS profile before listing object versions."@)
    } else if missing(s.selected_bucket) {
        Some("Select an S3 bucket before listing object versions."@)
    } else if is_blank(s.object_key) {
        Some("Enter an S3 object key before listing versions."@)
    } else {
        None
    }
}

/// Starting a version lookup: refused, with the reason as status, when a
/// lookup is running or a field is missing; otherwise a new request number
/// is drawn and the request names the selected profile and bucket and the
/// trimmed key.
pub open spec fn begin_version_load_step(a: AppView) -> (AppView, Result<
    VersionLoadRequestView,
    Seq<char>,
>) {
    match version_request_error(a.state) {
        Some(e) => (with_status(a, StatusView::Error(e)), Err(e)),
        None => {
            let id = next_id(a.request_id);
            (
                AppView {
                    state: AppStateView {
                        versions: seq![],
                        selected_version_id: None,
                        loading_versions: true,
                        status: Some(StatusView::Info("Loading object versions..."@)),
                        ..a.state
                    },
                    request_id: id,
                },
                Ok(
                    VersionLoadRequestView {
                        profile: a.state.selected_profile->0,
                        bucket: a.state.selected_bucket->0,
                        key: trim(a.state.object_key),
                        request_id: id,
                    },
                ),
            )
        },
    }
}

/// Whether the response to `request` still matters: it is the latest
/// request, and the profile, bucket and key are still those it names.
pub open spec fn accepts_versions(a: AppView, request: VersionLoadRequestView) -> bool {
    &&& request.request_id == a.request_id
    &&& a.state.selected_profile == Some(request.profile)
    &&& a.state.selected_bucket == Some(request.bucket)
    &&& trim(a.state.object_key) == request.key
}

/// The status after the versions of a key were listed.
pub open spec fn versions_found_status(versions: Seq<ObjectVersionView>) -> StatusView {
    if versions.len() == 0 {
        StatusView::Info(
            "No versions found for this key. Download will use the current version."@,
        )
    } else {
        StatusView::Info("Found "@ + decimal(versions.len()) + " object version(s)."@)
    }
}

/// The end of a version lookup: ignored unless the response still matters.
pub open spec fn finish_version_load_step(
    a: AppView,
    request: VersionLoadRequestView,
    result: Result<Seq<ObjectVersionView>, Seq<char>>,
) -> (AppView, bool) {
    if !accepts_versions(a, request) {
        (a, false)
    } else {
        let s = AppStateView { loading_versions: false, selected_version_id: None, ..a.state };
        let next = match result {
            Ok(found) => AppStateView {
                versions: found,
                status: Some(versions_found_status(found)),
                ..s
            },
            Err(e) => AppStateView {
                versions: seq![],
                status: Some(StatusView::Error("Could not load object versions: "@ + e)),
                ..s
            },
        };
        (AppView { state: next, request_id: a.request_id }, true)
    }
}

/// Choosing a version: none means the current version; a version that is
/// not listed is refused and clears the choice.
pub open spec fn select_version_id_step(a: AppView, version_id: Option<Seq<char>>) -> (
    AppView,
    bool,
) {
    match version_id {
        None => (
            AppView {
                state: AppStateView { selected_version_id: None, ..a.state },
                request_id: a.request_id,
            },
            true,
        ),
        Some(v) => if has_version(a.state.versions, v) {
            (
                AppView {
                    state: AppStateView { selected_version_id: Some(v), ..a.state },
                    request_id: a.request_id,
                },
                true,
            )
        } else {
            (
                AppView {
                    state: AppStateView {
                        selected_version_id: None,
                        status: Some(
                            StatusView::Error(
                                "The selected object version is no longer available."@,
                            ),
                        ),
                        ..a.state
                    },
                    request_id: a.request_id,
                },
                false,
            )
        },
    }
}

/// Starting a download: refused, with the reason as status, while one is
/// running or when the form is incomplete; otherwise the validated request.
pub open spec fn begin_download_step(a: AppView) -> (AppView, Result<
    DownloadRequestView,
    Seq<char>,
>) {
    if a.state.downloading {
        let e = "A download is already in progress."@;
        (with_status(a, StatusView::Error(e)), Err(e))
    } else {
        match download_request_of(a.state) {
            Err(e) => (with_status(a, StatusView::Error(e)), Err(e)),
            Ok(r) => (
                AppView {
                    state: AppStateView {
                        downloading: true,
                        status: Some(StatusView::Info("Downloading..."@)),
                        ..a.state
                    },
                    request_id: a.request_id,
                },
                Ok(r),
            ),
        }
    }
}

/// The end of a download: reports where the file went, or why it failed.
pub open spec fn finish_download_step(
    a: AppView,
    destination: Seq<char>,
    result: Result<(), Seq<char>>,
) -> AppView {
    AppView {
        state: AppStateView {
            downloading: false,
            status: Some(
                match result {
                    Ok(_) => StatusView::Success("Download completed\n"@ + destination),
                    Err(e) => StatusView::Error("Download failed: "@ + e),
                },
            ),
            ..a.state
        },
        request_id: a.request_id,
    }
}

// ---------------------------------------------------------------------------
// Views of the arguments and results

/// The view of a result that carries strings.
pub open spec fn names_result_view(r: Result<Vec<String>, String>) -> Result<
    Seq<Seq<char>>,
    Seq<char>,
> {
    match r {
        Ok(v) => Ok(views(v@)),
        Err(e) => Err(e@),
    }
}

/// The view of a result that carries nothing.
pub open spec fn unit_view(r: Result<(), String>) -> Result<(), Seq<char>> {
    match r {
        Ok(_) => Ok(()),
        Err(e) => Err(e@),
    }
}

/// The view of a result that carries versions.
pub open spec fn versions_view(r: Result<Vec<ObjectVersion>, String>) -> Result<
    Seq<ObjectVersionView>,
    Seq<char>,
> {
    match r {
        Ok(v) => Ok(version_views(v@)),
        Err(e) => Err(e@),
    }
}

/// The view of a result that carries a version request.
pub open spec fn version_request_view(r: Result<VersionLoadRequest, String>) -> Result<
    VersionLoadRequestView,
    Seq<char>,
> {
    match r {
        Ok(v) => Ok(v@),
        Err(e) => Err(e@),
    }
}

// ---------------------------------------------------------------------------
// The executable transitions

/// Whether `item` is one of `items`.
fn contains_string(items: &Vec<String>, item: &String) -> (r: bool)
    ensures
        r == views(items@).contains(item@),
{
    let mut i: usize = 0;
    while i < items.len()
        invariant
            i <= items.len(),
            forall|k: int| 0 <= k < i ==> (#[trigger] items@[k])@ != item@,
        decreases items.len() - i,
    {
        if items[i] == *item {
            assert(views(items@)[i as int] == item@);
            return true;
        }
        i = i + 1;
    }
    assert forall|k: int| 0 <= k < views(items@).len() implies #[trigger] views(items@)[k]
        != item@ by {
        assert(items@[k]@ != item@);
    }
    false
}

/// Whether an optional string is the given text.
fn is_some_text(o: &Option<String>, text: &String) -> (r: bool)
    ensures
        r == (opt_view(*o) == Some(text@)),
{
    match o {
        Some(s) => *s == *text,
        None => false,
    }
}

impl DownloaderApp {
    /// The application as it opens.
    pub fn new() -> (r: Self)
        ensures
            r@ == initial_app(),
    {
        let mut state = AppState::default();
        state.status = Some(
            AppStatus::Info(String::from_str("Select an AWS profile to list its S3 buckets.")),
        );
        DownloaderApp { state, next_version_request_id: RequestNumber::zero() }
    }

    /// Takes the outcome of loading the profiles and of checking for the
    /// tool.
    pub fn initialize(
        &mut self,
        profiles_result: Result<Vec<String>, String>,
        cli_result: Result<(), String>,
    )
        ensures
            final(self)@ == initialize_step(old(self)@, names_result_view(profiles_result), unit_view(cli_result)),
    {
        let mut profiles_error: Option<String> = None;
        match profiles_result {
            Ok(profiles) => {
                self.state.profiles = sort_dedup(profiles);
            },
            Err(error) => {
                profiles_error = Some(error);
            },
        }
        let status = match (profiles_error, cli_result) {
            (Some(p), Err(c)) => {
                let mut m = concat(p.as_str(), "\n\n");
                m.append(c.as_str());
                AppStatus::Error(m)
            },
            (Some(p), Ok(())) => AppStatus::Error(p),
            (None, Err(c)) => AppStatus::Error(c),
            (None, Ok(())) => {
                if self.state.profiles.len() == 0 {
                    AppStatus::Info(String::from_str("No AWS profiles were found in ~/.aws/config."))
                } else {
                    AppStatus::Info(
                        String::from_str("Select an AWS profile to list its S3 buckets."),
                    )
                }
            },
        };
        self.state.status = Some(status);
    }

    /// Forgets the versions and advances the request number.
    fn invalidate_version_state(&mut self)
        ensures
            final(self)@ == invalidated(old(self)@),
    {
        self.next_version_request_id.advance();
        self.state.versions.clear();
        self.state.selected_version_id = None;
        self.state.loading_versions = false;
        assert(version_views(self.state.versions@) =~= Seq::<ObjectVersionView>::empty());
    }

    /// Sets the status to an error.
    pub fn set_error(&mut self, error: String)
        ensures
            final(self)@ == with_status(old(self)@, StatusView::Error(error@)),
    {
        self.state.status = Some(AppStatus::Error(error));
    }

    /// Chooses a profile; `false` when it is not one of the loaded profiles.
    pub fn select_profile(&mut self, profile: String) -> (r: bool)
        ensures
            (final(self)@, r) == select_profile_step(old(self)@, profile@),
    {
        if !contains_string(&self.state.profiles, &profile) {
            self.set_error(String::from_str("The selected AWS profile is no longer available."));
            return false;
        }
        self.state.selected_profile = Some(profile);
        self.state.buckets.clear();
        self.state.selected_bucket = None;
        self.state.manual_bucket_entry = false;
        self.state.object_key = String::new();
        self.invalidate_version_state();
        self.state.loading_buckets = true;
        self.state.status = Some(AppStatus::Info(String::from_str("Loading buckets...")));
        assert(views(self.state.buckets@) =~= Seq::<Seq<char>>::empty());
        true
    }

    /// Takes the outcome of listing the buckets of `profile`; `false`, and
    /// nothing changes, when that is no longer the selected profile.
    pub fn finish_bucket_load(&mut self, profile: &str, result: Result<Vec<String>, String>) -> (r:
        bool)
        ensures
            (final(self)@, r) == finish_bucket_load_step(old(self)@, profile@, names_result_view(result)),
    {
        let wanted = String::from_str(profile);
        if !is_some_text(&self.state.selected_profile, &wanted) {
            return false;
        }
        self.state.loading_buckets = false;
        match result {
            Ok(buckets) => {
                self.state.buckets = sort_dedup(buckets);
                self.state.selected_bucket = None;
                let n = self.state.buckets.len();
                let message = if n == 0 {
                    String::from_str("No S3 buckets were found for this profile.")
                } else {
                    let count = decimal_string(n);
                    concat3("Found ", count.as_str(), " S3 bucket(s).")
                };
                self.state.status = Some(AppStatus::Info(message));
            },
            Err(error) => {
                self.state.buckets.clear();
                self.state.selected_bucket = None;
                if is_access_denied_error(error.as_str()) {
                    self.state.manual_bucket_entry = true;
                    self.state.status = Some(
                        AppStatus::Info(
                            String::from_str(
                                "This profile cannot list buckets. Enter a bucket name manually.",
                            ),
                        ),
                    );
                } else {
                    self.state.status = Some(
                        AppStatus::Error(concat("Could not load S3 buckets: ", error.as_str())),
                    );
                }
                assert(views(self.state.buckets@) =~= Seq::<Seq<char>>::empty());
            },
        }
        true
    }

    /// Chooses a bucket; `false` when it is neither listed nor typed by hand.
    pub fn select_bucket(&mut self, bucket: String) -> (r: bool)
        ensures
            (final(self)@, r) == select_bucket_step(old(self)@, bucket@),
    {
        if !self.state.manual_bucket_entry && !contains_string(&self.state.buckets, &bucket) {
            return false;
        }
        if !is_some_text(&self.state.selected_bucket, &bucket) {
            self.state.selected_bucket = Some(bucket);
            self.invalidate_version_state();
            self.state.status = Some(
                AppStatus::Info(
                    String::from_str("Enter an object key and press Enter to list its versions."),
                ),
            );
        }
        true
    }

    /// Takes a bucket name typed by hand.
    pub fn set_manual_bucket(&mut self, value: String)
        ensures
            final(self)@ == set_manual_bucket_step(old(self)@, value@),
    {
        if !self.state.manual_bucket_entry {
            return;
        }
        proof {
            crate::text::lemma_blank_iff_trim_empty(value@);
        }
        self.state.selected_bucket = if blank(value.as_str()) {
            None
        } else {
            Some(trimmed(value.as_str()))
        };
        self.invalidate_version_state();
    }

    /// Takes the object key as typed.
    pub fn set_object_key(&mut self, value: String)
        ensures
            final(self)@ == set_object_key_step(old(self)@, value@),
    {
        if self.state.object_key != value {
            self.state.object_key = value;
            self.invalidate_version_state();
        }
    }

    /// Starts a version lookup: the request to run, or why there is none.
    pub fn begin_version_load(&mut self) -> (r: Result<VersionLoadRequest, String>)
        ensures
            (final(self)@, version_request_view(r)) == begin_version_load_step(old(self)@),
    {
        if self.state.loading_versions {
            let error = String::from_str("An object version lookup is already in progress.");
            self.set_error(error.clone());
            return Err(error);
        }
        if match &self.state.selected_profile {
            Some(p) => blank(p.as_str()),
            None => true,
        } {
            let error = String::from_str("Select an AWS profile before listing object versions.");
            self.set_error(error.clone());
            return Err(error);
        }
        if match &self.state.selected_bucket {
            Some(b) => blank(b.as_str()),
            None => true,
        } {
            let error = String::from_str("Select an S3 bucket before listing object versions.");
            self.set_error(error.clone());
            return Err(error);
        }
        if blank(self.state.object_key.as_str()) {
            let error = String::from_str("Enter an S3 object key before listing versions.");
            self.set_error(error.clone());
            return Err(error);
        }
        self.next_version_request_id.advance();
        let request = VersionLoadRequest {
            profile: self.state.selected_profile.as_ref().unwrap().clone(),
            bucket: self.state.selected_bucket.as_ref().unwrap().clone(),
            key: trimmed(self.state.object_key.as_str()),
            request_id: self.next_version_request_id.get(),
        };
        self.state.versions.clear();
        self.state.selected_version_id = None;
        self.state.loading_versions = true;
        self.state.status = Some(AppStatus::Info(String::from_str("Loading object versions...")));
        assert(version_views(self.state.versions@) =~= Seq::<ObjectVersionView>::empty());
        Ok(request)
    }

    /// Takes the outcome of the version lookup `request`; `false`, and
    /// nothing changes, when its response no longer matters.
    pub fn finish_version_load(
        &mut self,
        request: &VersionLoadRequest,
        result: Result<Vec<ObjectVersion>, String>,
    ) -> (r: bool)
        ensures
            (final(self)@, r) == finish_version_load_step(old(self)@, request@, versions_view(result)),
    {
        if request.request_id != self.next_version_request_id.get() || !is_some_text(
            &self.state.selected_profile,
            &request.profile,
        ) || !is_some_text(&self.state.selected_bucket, &request.bucket) {
            return false;
        }
        let key = trimmed(self.state.object_key.as_str());
        if key != request.key {
            return false;
        }
        self.state.loading_versions = false;
        self.state.selected_version_id = None;
        match result {
            Ok(versions) => {
                self.state.versions = versions;
                let n = self.state.versions.len();
                let message = if n == 0 {
                    String::from_str(
                        "No versions found for this key. Download will use the current version.",
                    )
                } else {
                    let count = decimal_string(n);
                    concat3("Found ", count.as_str(), " object version(s).")
                };
                self.state.status = Some(AppStatus::Info(message));
            },
            Err(error) => {
                self.state.versions.clear();
                self.state.status = Some(
                    AppStatus::Error(concat("Could not load object versions: ", error.as_str())),
                );
                assert(version_views(self.state.versions@) =~= Seq::<ObjectVersionView>::empty());
            },
        }
        true
    }

    /// Chooses a version, or the current version with `None`; `false` when
    /// the version is not listed.
    pub fn select_version_id(&mut self, version_id: Option<String>) -> (r: bool)
        ensures
            (final(self)@, r) == select_version_id_step(old(self)@, opt_view(version_id)),
    {
        match version_id {
            None => {
                self.state.selected_version_id = None;
                true
            },
            Some(id) => {
                if contains_version(&self.state.versions, &id) {
                    self.state.selected_version_id = Some(id);
                    true
                } else {
                    self.state.selected_version_id = None;
                    self.set_error(
                        String::from_str("The selected object version is no longer available."),
                    );
                    false
                }
            },
        }
    }

    /// Takes the destination path as typed or chosen.
    pub fn set_destination(&mut self, value: String)
        ensures
            final(self)@ == (AppView {
                state: AppStateView { destination: value@, ..old(self)@.state },
                request_id: old(self)@.request_id,
            }),
    {
        self.state.destination = value;
    }

    /// Starts a download: the request to run, or why there is none.
    pub fn begin_download(&mut self) -> (r: Result<DownloadRequest, String>)
        ensures
            (final(self)@, request_result_view(r)) == begin_download_step(old(self)@),
    {
        if self.state.downloading {
            let error = String::from_str("A download is already in progress.");
            self.set_error(error.clone());
            return Err(error);
        }
        let request = match self.state.download_request() {
            Ok(request) => request,
            Err(error) => {
                self.set_error(error.clone());
                return Err(error);
            },
        };
        self.state.downloading = true;
        self.state.status = Some(AppStatus::Info(String::from_str("Downloading...")));
        Ok(request)
    }

    /// Takes the outcome of the download to `destination`.
    pub fn finish_download(&mut self, destination: String, result: Result<(), String>)
        ensures
            final(self)@ == finish_download_step(old(self)@, destination@, unit_view(result)),
    {
        self.state.downloading = false;
        self.state.status = Some(
            match result {
                Ok(()) => AppStatus::Success(concat("Download completed\n", destination.as_str())),
                Err(error) => AppStatus::Error(concat("Download failed: ", error.as_str())),
            },
        );
    }
}

impl Default for DownloaderApp {
    fn default() -> (r: Self)
        ensures
            r@ == initial_app(),
    {
        Self::new()
    }
}


// ---------------------------------------------------------------------------
// Laws

/// Everything that can happen to the application: a user action or the end
/// of a background job, with its arguments.
pub enum AppEvent {
    Initialize(Result<Seq<Seq<char>>, Seq<char>>, Result<(), Seq<char>>),
    SelectProfile(Seq<char>),
    FinishBucketLoad(Seq<char>, Result<Seq<Seq<char>>, Seq<char>>),
    SelectBucket(Seq<char>),
    TypeBucket(Seq<char>),
    TypeObjectKey(Seq<char>),
    BeginVersionLoad,
    FinishVersionLoad(VersionLoadRequestView, Result<Seq<ObjectVersionView>, Seq<char>>),
    SelectVersion(Option<Seq<char>>),
    SetDestination(Seq<char>),
    SetError(Seq<char>),
    BeginDownload,
    FinishDownload(Seq<char>, Result<(), Seq<char>>),
}

/// The application after an event, as the methods of [`DownloaderApp`]
/// take it there.
pub open spec fn step(a: AppView, e: AppEvent) -> AppView {
    match e {
        AppEvent::Initialize(p, c) => initialize_step(a, p, c),
        AppEvent::SelectProfile(p) => select_profile_step(a, p).0,
        AppEvent::FinishBucketLoad(p, r) => finish_bucket_load_step(a, p, r).0,
        AppEvent::SelectBucket(b) => select_bucket_step(a, b).0,
        AppEvent::TypeBucket(v) => set_manual_bucket_step(a, v),
        AppEvent::TypeObjectKey(v) => set_object_key_step(a, v),
        AppEvent::BeginVersionLoad => begin_version_load_step(a).0,
        AppEvent::FinishVersionLoad(q, r) => finish_version_load_step(a, q, r).0,
        AppEvent::SelectVersion(v) => select_version_id_step(a, v).0,
        AppEvent::SetDestination(d) => AppView {
            state: AppStateView { destination: d, ..a.state },
            request_id: a.request_id,
        },
        AppEvent::SetError(m) => with_status(a, StatusView::Error(m)),
        AppEvent::BeginDownload => begin_download_step(a).0,
        AppEvent::FinishDownload(d, r) => finish_download_step(a, d, r),
    }
}

/// Whether an event changes what a version lookup was about: another
/// profile, another bucket, a bucket typed by hand, or another key.
pub open spec fn changes_lookup_target(a: AppView, e: AppEvent) -> bool {
    match e {
        AppEvent::SelectProfile(p) => a.state.profiles.contains(p),
        AppEvent::SelectBucket(b) => (a.state.manual_bucket_entry || a.state.buckets.contains(b))
            && a.state.selected_bucket != Some(b),
        AppEvent::TypeBucket(_) => a.state.manual_bucket_entry,
        AppEvent::TypeObjectKey(v) => a.state.object_key != v,
        _ => false,
    }
}

/// The response to the lookup just started is taken when it arrives, as
/// long as nothing else happened in between.
pub proof fn law_fresh_version_response_accepted(a: AppView)
    ensures
        begin_version_load_step(a).1 matches Ok(request) ==> accepts_versions(
            begin_version_load_step(a).0,
            request,
        ),
{
}

/// Request numbers never go down, whatever happens.
pub proof fn law_request_number_never_decreases(a: AppView, e: AppEvent)
    ensures
        step(a, e).request_id >= a.request_id,
{
}

/// Once a response is outdated it stays ignored: whatever happens next, it
/// changes nothing when it arrives.
pub proof fn law_outdated_response_stays_ignored(
    a: AppView,
    e: AppEvent,
    request: VersionLoadRequestView,
    result: Result<Seq<ObjectVersionView>, Seq<char>>,
)
    requires
        request.request_id < a.request_id,
    ensures
        request.request_id < step(a, e).request_id,
        finish_version_load_step(step(a, e), request, result) == (step(a, e), false),
{
}

/// Changing the profile, the bucket or the key makes the response to any
/// earlier lookup outdated: it changes nothing when it arrives. (Request
/// numbers stop growing at `u64::MAX`, so this needs a number below it.)
pub proof fn law_edit_outdates_pending_lookup(
    a: AppView,
    e: AppEvent,
    request: VersionLoadRequestView,
    result: Result<Seq<ObjectVersionView>, Seq<char>>,
)
    requires
        request.request_id <= a.request_id,
        a.request_id < u64::MAX,
        changes_lookup_target(a, e),
    ensures
        request.request_id < step(a, e).request_id,
        finish_version_load_step(step(a, e), request, result) == (step(a, e), false),
{
}

/// Once a download has started, another cannot start until it finishes.
pub proof fn law_one_download_at_a_time(a: AppView, e: AppEvent)
    ensures
        begin_download_step(a).1 is Ok ==> begin_download_step(a).0.state.downloading,
        a.state.downloading ==> begin_download_step(a) == (
            with_status(a, StatusView::Error("A download is already in progress."@)),
            Err::<DownloadRequestView, Seq<char>>("A download is already in progress."@),
        ),
        a.state.downloading && !(e is FinishDownload) ==> step(a, e).state.downloading,
        !a.state.downloading && !(e is BeginDownload) ==> !step(a, e).state.downloading,
        !step(a, AppEvent::FinishDownload(seq![], Ok(()))).state.downloading,
{
}

/// A download is started exactly for the request that the form validates
/// to.
pub proof fn law_download_runs_the_validated_request(a: AppView)
    ensures
        !a.state.downloading ==> begin_download_step(a).1 == download_request_of(a.state),
{
}

/// The lists of profiles and buckets stay sorted and free of repetitions,
/// whatever happens.
pub proof fn law_lists_stay_sorted(a: AppView, e: AppEvent)
    requires
        crate::text::strictly_sorted(a.state.profiles),
        crate::text::strictly_sorted(a.state.buckets),
    ensures
        crate::text::strictly_sorted(step(a, e).state.profiles),
        crate::text::strictly_sorted(step(a, e).state.buckets),
{
    match e {
        AppEvent::Initialize(Ok(p), _) => {
            crate::text::lemma_sorted_set(p);
        },
        AppEvent::FinishBucketLoad(_, Ok(b)) => {
            crate::text::lemma_sorted_set(b);
        },
        _ => {},
    }
}


/// Choosing a loaded profile selects it and starts over: no buckets, no
/// bucket, buckets no longer typed by hand, no key, no versions, and its
/// buckets loading; the profile list and the download state are kept.
/// Choosing a profile that was not loaded changes nothing but the status.
pub proof fn law_select_profile_starts_over(a: AppView, profile: Seq<char>)
    ensures
        ({
            let (b, ok) = select_profile_step(a, profile);
            &&& ok == a.state.profiles.contains(profile)
            &&& ok ==> {
                &&& b.state.selected_profile == Some(profile)
                &&& b.state.buckets.len() == 0
                &&& b.state.selected_bucket is None
                &&& !b.state.manual_bucket_entry
                &&& b.state.object_key.len() == 0
                &&& b.state.versions.len() == 0
                &&& b.state.selected_version_id is None
                &&& !b.state.loading_versions
                &&& b.state.loading_buckets
                &&& b.state.profiles == a.state.profiles
                &&& b.state.destination == a.state.destination
                &&& b.state.downloading == a.state.downloading
                &&& b.request_id == next_id(a.request_id)
            }
            &&& !ok ==> b.state == AppStateView { status: b.state.status, ..a.state }
                && b.request_id == a.request_id
        }),
{
}

/// A version response that is taken replaces the versions with exactly the
/// versions received, in the order received, with none selected and no
/// lookup running; an error leaves no versions. Profile, bucket, key and
/// request number are kept.
pub proof fn law_finish_version_load_stores_the_response(
    a: AppView,
    request: VersionLoadRequestView,
    result: Result<Seq<ObjectVersionView>, Seq<char>>,
)
    ensures
        ({
            let (b, ok) = finish_version_load_step(a, request, result);
            &&& ok == accepts_versions(a, request)
            &&& !ok ==> b == a
            &&& ok ==> {
                &&& b.state.versions == match result {
                    Ok(found) => found,
                    Err(_) => Seq::<ObjectVersionView>::empty(),
                }
                &&& b.state.selected_version_id is None
                &&& !b.state.loading_versions
                &&& b.state.selected_profile == a.state.selected_profile
                &&& b.state.selected_bucket == a.state.selected_bucket
                &&& b.state.object_key == a.state.object_key
                &&& b.request_id == a.request_id
            }
        }),
{
    let (b, ok) = finish_version_load_step(a, request, result);
    if ok {
        if let Err(_) = result {
            assert(b.state.versions =~= Seq::<ObjectVersionView>::empty());
        }
    }
}

/// A bucket listing that is taken replaces the buckets with the names
/// received, sorted and without repetitions, and clears the bucket choice;
/// a denied listing switches to typing the bucket by hand, and any other
/// error leaves no buckets. The profile, key and versions are kept.
pub proof fn law_finish_bucket_load_stores_the_response(
    a: AppView,
    profile: Seq<char>,
    result: Result<Seq<Seq<char>>, Seq<char>>,
)
    ensures
        ({
            let (b, ok) = finish_bucket_load_step(a, profile, result);
            &&& ok == (a.state.selected_profile == Some(profile))
            &&& !ok ==> b == a
            &&& ok ==> {
                &&& !b.state.loading_buckets
                &&& b.state.selected_bucket is None
                &&& b.state.selected_profile == a.state.selected_profile
                &&& b.state.object_key == a.state.object_key
                &&& b.state.versions == a.state.versions
                &&& b.request_id == a.request_id
                &&& match result {
                    Ok(found) => crate::text::strictly_sorted(b.state.buckets)
                        && b.state.buckets.to_set() == found.to_set()
                        && b.state.manual_bucket_entry == a.state.manual_bucket_entry,
                    Err(e) => b.state.buckets.len() == 0 && b.state.manual_bucket_entry == (
                    a.state.manual_bucket_entry || access_denied(e)),
                }
            }
        }),
{
    if let Ok(found) = result {
        crate::text::lemma_sorted_set(found);
    }
}

/// Choosing a bucket that can be chosen selects it; choosing another bucket
/// than the selected one forgets the versions and outdates pending lookups.
/// A bucket that can not be chosen changes nothing.
pub proof fn law_select_bucket_selects_it(a: AppView, bucket: Seq<char>)
    ensures
        ({
            let (b, ok) = select_bucket_step(a, bucket);
            &&& ok == (a.state.manual_bucket_entry || a.state.buckets.contains(bucket))
            &&& !ok ==> b == a
            &&& ok ==> b.state.selected_bucket == Some(bucket)
            &&& ok ==> b.state.selected_profile == a.state.selected_profile
                && b.state.object_key == a.state.object_key
                && b.state.buckets == a.state.buckets
            &&& ok && a.state.selected_bucket != Some(bucket) ==> b.state.versions.len() == 0
                && b.state.selected_version_id is None && b.request_id == next_id(a.request_id)
        }),
{
}

/// Typing the key stores it as typed; a different key forgets the versions
/// and outdates pending lookups.
pub proof fn law_set_object_key_stores_it(a: AppView, value: Seq<char>)
    ensures
        set_object_key_step(a, value).state.object_key == value,
        set_object_key_step(a, value).state.selected_bucket == a.state.selected_bucket,
        set_object_key_step(a, value).state.selected_profile == a.state.selected_profile,
        a.state.object_key != value ==> set_object_key_step(a, value).state.versions.len() == 0
            && set_object_key_step(a, value).request_id == next_id(a.request_id),
{
}

/// A version lookup that starts names the selected profile and bucket and
/// the trimmed key, carries a new request number, and runs with no
/// versions listed; one that is refused changes nothing but the status.
pub proof fn law_begin_version_load_names_the_form(a: AppView)
    ensures
        ({
            let (b, r) = begin_version_load_step(a);
            &&& r is Ok <==> (!a.state.loading_versions && !crate::models::missing(
                a.state.selected_profile,
            ) && !crate::models::missing(a.state.selected_bucket) && !is_blank(
                a.state.object_key,
            ))
            &&& r matches Ok(q) ==> {
                &&& Some(q.profile) == a.state.selected_profile
                &&& Some(q.bucket) == a.state.selected_bucket
                &&& q.key == trim(a.state.object_key)
                &&& q.request_id == b.request_id
                &&& b.request_id == next_id(a.request_id)
                &&& b.state.loading_versions
                &&& b.state.versions.len() == 0
                &&& b.state.selected_version_id is None
            }
            &&& r is Err ==> b.state == AppStateView { status: b.state.status, ..a.state }
                && b.request_id == a.request_id
        }),
{
}

/// Choosing a listed version selects it, choosing none selects the current
/// version, and choosing an unlisted version clears the choice and is
/// refused; nothing else changes but the status.
pub proof fn law_select_version_id(a: AppView, version_id: Option<Seq<char>>)
    ensures
        ({
            let (b, ok) = select_version_id_step(a, version_id);
            &&& ok == match version_id {
                None => true,
                Some(v) => has_version(a.state.versions, v),
            }
            &&& b.state.selected_version_id == if ok {
                version_id
            } else {
                None
            }
            &&& b.state.versions == a.state.versions
            &&& b.state.selected_bucket == a.state.selected_bucket
            &&& b.request_id == a.request_id
        }),
{
}

/// A finished download ends the download, and reports where the file went
/// or why it failed; nothing else changes.
pub proof fn law_finish_download_reports(
    a: AppView,
    destination: Seq<char>,
    result: Result<(), Seq<char>>,
)
    ensures
        ({
            let b = finish_download_step(a, destination, result);
            &&& !b.state.downloading
            &&& b.state.status == Some(
                match result {
                    Ok(_) => StatusView::Success("Download completed\n"@ + destination),
                    Err(e) => StatusView::Error("Download failed: "@ + e),
                },
            )
            &&& b.state == AppStateView { downloading: false, status: b.state.status, ..a.state }
            &&& b.request_id == a.request_id
        }),
{
}


/// Start-up keeps the loaded profiles, sorted and without repetitions, and
/// reports every error: both errors joined by a blank line, or the one
/// error, or an invitation to choose a profile (a note when there is none).
/// Nothing else changes.
pub proof fn law_initialize_reports(
    a: AppView,
    profiles: Result<Seq<Seq<char>>, Seq<char>>,
    cli: Result<(), Seq<char>>,
)
    ensures
        ({
            let b = initialize_step(a, profiles, cli);
            &&& profiles matches Ok(p) ==> crate::text::strictly_sorted(b.state.profiles)
                && b.state.profiles.to_set() == p.to_set()
            &&& profiles is Err ==> b.state.profiles == a.state.profiles
            &&& b.state == AppStateView {
                profiles: b.state.profiles,
                status: b.state.status,
                ..a.state
            }
            &&& b.request_id == a.request_id
            &&& b.state.status == Some(
                match (profiles, cli) {
                    (Err(p), Err(c)) => StatusView::Error(p + "\n\n"@ + c),
                    (Err(p), Ok(_)) => StatusView::Error(p),
                    (Ok(_), Err(c)) => StatusView::Error(c),
                    (Ok(_), Ok(_)) => if b.state.profiles.len() == 0 {
                        StatusView::Info("No AWS profiles were found in ~/.aws/config."@)
                    } else {
                        StatusView::Info("Select an AWS profile to list its S3 buckets."@)
                    },
                },
            )
        }),
{
    if let Ok(p) = profiles {
        crate::text::lemma_sorted_set(p);
    }
}

} // verus!
