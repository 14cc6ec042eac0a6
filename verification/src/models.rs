//! The form state of the downloader, the download request it validates, and
//! the object versions that a version listing reports.

use vstd::prelude::*;

use crate::text::{blank, chars_of, is_blank, string_from, trim, trimmed, views};

verus! {

/// The message shown under the form.
#[derive(Debug, Clone, PartialEq, Eq)]
pub enum AppStatus {
    Info(String),
    Success(String),
    Error(String),
}

/// Mathematical model of an [`AppStatus`].
pub enum StatusView {
    Info(Seq<char>),
    Success(Seq<char>),
    Error(Seq<char>),
}

impl View for AppStatus {
    type V = StatusView;

    open spec fn view(&self) -> StatusView {
        match self {
            AppStatus::Info(m) => StatusView::Info(m@),
            AppStatus::Success(m) => StatusView::Success(m@),
            AppStatus::Error(m) => StatusView::Error(m@),
        }
    }
}

/// Everything needed to run one download.
#[derive(Debug, Clone, PartialEq, Eq)]
pub struct DownloadRequest {
    pub profile: String,
    pub bucket: String,
    pub key: String,
    pub version_id: Option<String>,
    /// Path of the local file to write.
    pub destination: String,
}

/// Mathematical model of a [`DownloadRequest`].
pub struct DownloadRequestView {
    pub profile: Seq<char>,
    pub bucket: Seq<char>,
    pub key: Seq<char>,
    pub version_id: Option<Seq<char>>,
    pub destination: Seq<char>,
}

impl View for DownloadRequest {
    type V = DownloadRequestView;

    open spec fn view(&self) -> DownloadRequestView {
        DownloadRequestView {
            profile: self.profile@,
            bucket: self.bucket@,
            key: self.key@,
            version_id: opt_view(self.version_id),
            destination: self.destination@,
        }
    }
}

/// One version of an S3 object.
#[derive(Debug, Clone, PartialEq, Eq)]
pub struct ObjectVersion {
    pub key: String,
    pub version_id: String,
    pub is_latest: bool,
    pub last_modified: String,
    pub size: u64,
}

/// Mathematical model of an [`ObjectVersion`].
pub struct ObjectVersionView {
    pub key: Seq<char>,
    pub version_id: Seq<char>,
    pub is_latest: bool,
    pub last_modified: Seq<char>,
    pub size: u64,
}

impl View for ObjectVersion {
    type V = ObjectVersionView;

    open spec fn view(&self) -> ObjectVersionView {
        ObjectVersionView {
            key: self.key@,
            version_id: self.version_id@,
            is_latest: self.is_latest,
            last_modified: self.last_modified@,
            size: self.size,
        }
    }
}

/// The state behind the download form.
#[derive(Debug, Clone)]
pub struct AppState {
    pub profiles: Vec<String>,
    pub selected_profile: Option<String>,
    pub buckets: Vec<String>,
    pub selected_bucket: Option<String>,
    pub manual_bucket_entry: bool,
    pub object_key: String,
    pub versions: Vec<ObjectVersion>,
    pub selected_version_id: Option<String>,
    pub destination: String,
    pub loading_buckets: bool,
    pub loading_versions: bool,
    pub downloading: bool,
    pub status: Option<AppStatus>,
}

/// Mathematical model of an [`AppState`].
pub struct AppStateView {
    pub profiles: Seq<Seq<char>>,
    pub selected_profile: Option<Seq<char>>,
    pub buckets: Seq<Seq<char>>,
    pub selected_bucket: Option<Seq<char>>,
    pub manual_bucket_entry: bool,
    pub object_key: Seq<char>,
    pub versions: Seq<ObjectVersionView>,
    pub selected_version_id: Option<Seq<char>>,
    pub destination: Seq<char>,
    pub loading_buckets: bool,
    pub loading_versions: bool,
    pub downloading: bool,
    pub status: Option<StatusView>,
}

/// The view of an optional string.
pub open spec fn opt_view(o: Option<String>) -> Option<Seq<char>> {
    match o {
        Some(s) => Some(s@),
        None => None,
    }
}

/// The view of an optional status.
pub open spec fn status_view(o: Option<AppStatus>) -> Option<StatusView> {
    match o {
        Some(s) => Some(s@),
        None => None,
    }
}

/// The views of a sequence of object versions.
pub open spec fn version_views(s: Seq<ObjectVersion>) -> Seq<ObjectVersionView> {
    s.map_values(|v: ObjectVersion| v@)
}

impl View for AppState {
    type V = AppStateView;

    open spec fn view(&self) -> AppStateView {
        AppStateView {
            profiles: views(self.profiles@),
            selected_profile: opt_view(self.selected_profile),
            buckets: views(self.buckets@),
            selected_bucket: opt_view(self.selected_bucket),
            manual_bucket_entry: self.manual_bucket_entry,
            object_key: self.object_key@,
            versions: version_views(self.versions@),
            selected_version_id: opt_view(self.selected_version_id),
            destination: self.destination@,
            loading_buckets: self.loading_buckets,
            loading_versions: self.loading_versions,
            downloading: self.downloading,
            status: status_view(self.status),
        }
    }
}

/// The empty, idle state: nothing loaded, nothing selected, no message.
pub open spec fn empty_state() -> AppStateView {
    AppStateView {
        profiles: seq![],
        selected_profile: None,
        buckets: seq![],
        selected_bucket: None,
        manual_bucket_entry: false,
        object_key: seq![],
        versions: seq![],
        selected_version_id: None,
        destination: seq![],
        loading_buckets: false,
        loading_versions: false,
        downloading: false,
        status: None,
    }
}

impl Default for AppState {
    fn default() -> (r: Self)
        ensures
            r@ == empty_state(),
    {
        let r = AppState {
            profiles: Vec::new(),
            selected_profile: None,
            buckets: Vec::new(),
            selected_bucket: None,
            manual_bucket_entry: false,
            object_key: String::new(),
            versions: Vec::new(),
            selected_version_id: None,
            destination: String::new(),
            loading_buckets: false,
            loading_versions: false,
            downloading: false,
            status: None,
        };
        assert(views(r.profiles@) =~= seq![]);
        assert(views(r.buckets@) =~= seq![]);
        assert(version_views(r.versions@) =~= seq![]);
        r
    }
}

/// Whether an optional text is missing or blank.
pub open spec fn missing(o: Option<Seq<char>>) -> bool {
    match o {
        Some(s) => is_blank(s),
        None => true,
    }
}

/// Whether some listed version has the given id.
pub open spec fn has_version(versions: Seq<ObjectVersionView>, id: Seq<char>) -> bool {
    exists|k: int| 0 <= k < versions.len() && #[trigger] versions[k].version_id == id
}

/// What validating the form gives: the request to run, or the message
/// explaining what is missing. Profile, bucket and version id are used as
/// entered; the object key and the destination are trimmed. A blank version
/// id selects the current version.
pub open spec fn download_request_of(s: AppStateView) -> Result<DownloadRequestView, Seq<char>> {
    if missing(s.selected_profile) {
        Err("Select an AWS profile before downloading."@)
    } else if missing(s.selected_bucket) {
        Err("Select an S3 bucket before downloading."@)
    } else if is_blank(s.object_key) {
        Err("Enter an S3 object key before downloading."@)
    } else if is_blank(s.destination) {
        Err("Choose a destination file before downloading."@)
    } else if !missing(s.selected_version_id) && !has_version(
        s.versions,
        s.selected_version_id->0,
    ) {
        Err("The selected object version is no longer available."@)
    } else {
        Ok(
            DownloadRequestView {
                profile: s.selected_profile->0,
                bucket: s.selected_bucket->0,
                key: trim(s.object_key),
                version_id: if missing(s.selected_version_id) {
                    None
                } else {
                    s.selected_version_id
                },
                destination: trim(s.destination),
            },
        )
    }
}

/// The view of a result whose error is a string.
pub open spec fn request_result_view(r: Result<DownloadRequest, String>) -> Result<
    DownloadRequestView,
    Seq<char>,
> {
    match r {
        Ok(v) => Ok(v@),
        Err(e) => Err(e@),
    }
}

/// The part of a key after its last `/`, the whole key when it has none.
pub open spec fn last_segment(s: Seq<char>) -> Seq<char>
    decreases s.len(),
{
    if s.len() == 0 {
        s
    } else if s.last() == '/' {
        seq![]
    } else {
        last_segment(s.drop_last()).push(s.last())
    }
}

/// The file name offered for an object key: its last segment, or `download`
/// when that is empty.
pub open spec fn suggested_name(key: Seq<char>) -> Seq<char> {
    let name = last_segment(trim(key));
    if name.len() == 0 {
        "download"@
    } else {
        name
    }
}

/// What `std::path::Path::parent` gives for a path: the path without its
/// final component, nothing when the path ends in a root or is empty.
pub uninterp spec fn path_parent(path: Seq<char>) -> Option<Seq<char>>;

/// The parent of a path.
///
/// Trusted: calls `std::path::Path::parent` and turns the parent, a part of
/// the valid UTF-8 input, back into a string. The contract only says that
/// the outcome is a function of the path, named `path_parent`; how paths
/// split into components is left to std.
#[verifier::external_body]
fn parent_of(path: &str) -> (r: Option<String>)
    ensures
        opt_view(r) == path_parent(path@),
{
    std::path::Path::new(path).parent().map(|parent| parent.to_string_lossy().into_owned())
}

/// The directory in which to open the save dialog for a destination: none
/// for a blank destination, meaning the current directory; otherwise the
/// parent of the trimmed destination, or `.` when it has no parent or an
/// empty one.
pub open spec fn destination_directory_of(destination: Seq<char>) -> Option<Seq<char>> {
    if is_blank(destination) {
        None
    } else {
        match path_parent(trim(destination)) {
            Some(parent) if parent.len() > 0 => Some(parent),
            _ => Some("."@),
        }
    }
}

/// The directory in which to open the save dialog for `destination`;
/// `None` stands for the current directory.
pub fn destination_directory(destination: &str) -> (r: Option<String>)
    ensures
        opt_view(r) == destination_directory_of(destination@),
{
    if blank(destination) {
        return None;
    }
    let path = trimmed(destination);
    match parent_of(path.as_str()) {
        Some(parent) => {
            if chars_of(parent.as_str()).len() > 0 {
                Some(parent)
            } else {
                Some(String::from_str("."))
            }
        },
        None => Some(String::from_str(".")),
    }
}

/// Whether a version with the given id is in the list.
pub fn contains_version(versions: &Vec<ObjectVersion>, id: &String) -> (r: bool)
    ensures
        r == has_version(version_views(versions@), id@),
{
    let mut i: usize = 0;
    while i < versions.len()
        invariant
            i <= versions.len(),
            forall|k: int| 0 <= k < i ==> (#[trigger] versions@[k]).version_id@ != id@,
        decreases versions.len() - i,
    {
        if versions[i].version_id == *id {
            assert(version_views(versions@)[i as int].version_id == id@);
            return true;
        }
        i = i + 1;
    }
    assert forall|k: int| 0 <= k < versions@.len() implies #[trigger] version_views(
        versions@,
    )[k].version_id != id@ by {
        assert(versions@[k].version_id@ != id@);
    }
    false
}

/// Whether an optional string is missing or blank.
fn missing_text(o: &Option<String>) -> (r: bool)
    ensures
        r == missing(opt_view(*o)),
{
    match o {
        Some(s) => blank(s.as_str()),
        None => true,
    }
}

impl AppState {
    /// Validates the form and builds the download request.
    pub fn download_request(&self) -> (r: Result<DownloadRequest, String>)
        ensures
            request_result_view(r) == download_request_of(self@),
    {
        if missing_text(&self.selected_profile) {
            return Err(String::from_str("Select an AWS profile before downloading."));
        }
        if missing_text(&self.selected_bucket) {
            return Err(String::from_str("Select an S3 bucket before downloading."));
        }
        if blank(self.object_key.as_str()) {
            return Err(String::from_str("Enter an S3 object key before downloading."));
        }
        if blank(self.destination.as_str()) {
            return Err(String::from_str("Choose a destination file before downloading."));
        }
        let version_id = if missing_text(&self.selected_version_id) {
            None
        } else {
            let id = self.selected_version_id.as_ref().unwrap();
            if !contains_version(&self.versions, id) {
                return Err(String::from_str("The selected object version is no longer available."));
            }
            Some(id.clone())
        };
        let profile = self.selected_profile.as_ref().unwrap().clone();
        let bucket = self.selected_bucket.as_ref().unwrap().clone();
        Ok(
            DownloadRequest {
                profile,
                bucket,
                key: trimmed(self.object_key.as_str()),
                version_id,
                destination: trimmed(self.destination.as_str()),
            },
        )
    }

    /// Whether the profile selector is unavailable: during a download, or
    /// when no profile was found.
    pub fn profile_selection_disabled(&self) -> (r: bool)
        ensures
            r == (self.downloading || self.profiles@.len() == 0),
    {
        self.downloading || self.profiles.len() == 0
    }

    /// Whether the bucket selector is unavailable: during a download, while
    /// buckets load, before a profile is chosen, or when there is no bucket
    /// to choose.
    pub fn bucket_selection_disabled(&self) -> (r: bool)
        ensures
            r == (self.downloading || self.loading_buckets || self.selected_profile is None
                || self.buckets@.len() == 0),
    {
        self.downloading || self.loading_buckets || self.selected_profile.is_none()
            || self.buckets.len() == 0
    }

    /// The file name to offer when choosing where to save the object.
    pub fn suggested_filename(&self) -> (r: String)
        ensures
            r@ == suggested_name(self.object_key@),
    {
        let key = trimmed(self.object_key.as_str());
        let v = chars_of(key.as_str());
        let mut start = v.len();
        assert(v@.take(start as int) =~= v@);
        assert(v@.skip(start as int) =~= seq![]);
        assert(v@ + seq![] =~= v@);
        while start > 0 && v[start - 1] != '/'
            invariant
                start <= v.len(),
                last_segment(v@) == last_segment(v@.take(start as int)) + v@.skip(
                    start as int,
                ),
            decreases start,
        {
            proof {
                let t = v@.take(start as int);
                assert(t.drop_last() =~= v@.take(start - 1));
                assert(v@.skip(start - 1) =~= seq![t.last()] + v@.skip(start as int));
                assert(last_segment(t) == last_segment(t.drop_last()).push(t.last()));
                assert(last_segment(t.drop_last()).push(t.last()) + v@.skip(start as int)
                    =~= last_segment(t.drop_last()) + v@.skip(start - 1));
            }
            start = start - 1;
        }
        proof {
            if start > 0 {
                assert(v@.take(start as int).last() == '/');
            }
            assert(v@.skip(start as int) =~= v@.subrange(start as int, v@.len() as int));
        }
        if start == v.len() {
            String::from_str("download")
        } else {
            string_from(&v, start, v.len())
        }
    }
}


proof fn lemma_last_segment_has_no_slash(s: Seq<char>)
    ensures
        forall|i: int| 0 <= i < last_segment(s).len() ==> #[trigger] last_segment(s)[i] != '/',
    decreases s.len(),
{
    if s.len() > 0 && s.last() != '/' {
        lemma_last_segment_has_no_slash(s.drop_last());
        let r = last_segment(s);
        assert forall|i: int| 0 <= i < r.len() implies #[trigger] r[i] != '/' by {
            if i < r.len() - 1 {
                assert(r[i] == last_segment(s.drop_last())[i]);
            }
        }
    }
}

/// The suggested file name is never empty and never contains `/`: it is a
/// plain file name, whatever the key.
pub proof fn law_suggested_name_is_a_file_name(key: Seq<char>)
    ensures
        suggested_name(key).len() > 0,
        forall|i: int| 0 <= i < suggested_name(key).len() ==> #[trigger] suggested_name(key)[i]
            != '/',
{
    lemma_last_segment_has_no_slash(trim(key));
    reveal_strlit("download");
}

/// A request made by validating the form names a key and a destination
/// without surrounding whitespace, and never a blank version.
pub proof fn law_request_fields_are_clean(s: AppStateView)
    ensures
        download_request_of(s) matches Ok(r) ==> {
            &&& r.key == trim(s.object_key)
            &&& r.destination == trim(s.destination)
            &&& !is_blank(r.profile)
            &&& !is_blank(r.bucket)
            &&& r.version_id matches Some(v) ==> !is_blank(v)
        },
{
}

/// The form validates exactly when a profile, a bucket, a key and a
/// destination are given and the chosen version, if any, is listed; the
/// request then names the profile and bucket as entered, the trimmed key
/// and destination, and the chosen version.
pub proof fn law_request_is_the_form(s: AppStateView)
    ensures
        download_request_of(s) is Ok <==> {
            &&& s.selected_profile is Some && !is_blank(s.selected_profile->0)
            &&& s.selected_bucket is Some && !is_blank(s.selected_bucket->0)
            &&& !is_blank(s.object_key)
            &&& !is_blank(s.destination)
            &&& (s.selected_version_id is Some && !is_blank(s.selected_version_id->0)) ==> has_version(
                s.versions,
                s.selected_version_id->0,
            )
        },
        download_request_of(s) matches Ok(r) ==> {
            &&& Some(r.profile) == s.selected_profile
            &&& Some(r.bucket) == s.selected_bucket
            &&& r.key == trim(s.object_key)
            &&& r.destination == trim(s.destination)
            &&& r.version_id == if s.selected_version_id is Some && !is_blank(
                s.selected_version_id->0,
            ) {
                s.selected_version_id
            } else {
                None
            }
        },
{
}

/// The suggested name is what follows the last `/` of the trimmed key, or
/// `download` when nothing does.
pub proof fn law_suggested_name_is_the_last_segment(key: Seq<char>)
    ensures
        ({
            let t = trim(key);
            let n = suggested_name(key);
            ||| n == "download"@
            ||| (n.len() <= t.len() && t.skip(t.len() - n.len()) == n && (n.len() == t.len()
                || t[t.len() - n.len() - 1] == '/'))
        }),
{
    lemma_last_segment_suffix(trim(key));
}

proof fn lemma_last_segment_suffix(s: Seq<char>)
    ensures
        ({
            let n = last_segment(s);
            &&& n.len() <= s.len()
            &&& s.skip(s.len() - n.len()) == n
            &&& n.len() == s.len() || s[s.len() - n.len() - 1] == '/'
        }),
    decreases s.len(),
{
    if s.len() == 0 {
        assert(s.skip(0) =~= s);
    } else if s.last() == '/' {
        assert(s.skip(s.len() as int) =~= Seq::<char>::empty());
    } else {
        let u = s.drop_last();
        lemma_last_segment_suffix(u);
        let m = last_segment(u);
        assert(s.skip(s.len() - (m.len() + 1)) =~= u.skip(u.len() - m.len()).push(s.last()));
        if m.len() < u.len() {
            assert(s[s.len() - (m.len() + 1) - 1] == u[u.len() - m.len() - 1]);
        }
    }
}

} // verus!
