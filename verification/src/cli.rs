//! The AWS command line tool: the arguments of each command, what a run's
//! outcome means, and the interpretation of the JSON that it prints.

use vstd::prelude::*;

use crate::json::{
    decode_document, decode_string_list, json_array, json_bool, json_document, json_get,
    json_str, json_string_list, json_u64, JsonValue,
};
use crate::models::{version_views, ObjectVersion, ObjectVersionView};
use crate::text::{
    concat, concat3, contains, contains_text, lex_lt, sort_dedup, sorted_set, str_less, trim,
    trimmed, views,
};

verus! {

// ---------------------------------------------------------------------------
// Where to find the tool

/// `dir` joined with the relative path `name`, as `Path::join` does.
pub open spec fn path_join(dir: Seq<char>, name: Seq<char>) -> Seq<char> {
    if dir.len() == 0 {
        name
    } else if dir.last() == '/' {
        dir + name
    } else {
        dir + "/"@ + name
    }
}

/// Joins a directory and a relative path.
pub fn join_path(dir: &str, name: &str) -> (r: String)
    ensures
        r@ == path_join(dir@, name@),
{
    let v = crate::text::chars_of(dir);
    if v.len() == 0 {
        String::from_str(name)
    } else if v[v.len() - 1] == '/' {
        concat(dir, name)
    } else {
        concat3(dir, "/", name)
    }
}

/// The places where the tool is commonly installed on macOS, tried after
/// the directories of `PATH`.
pub open spec fn fallback_locations() -> Seq<Seq<char>> {
    seq![
        "/usr/local/bin/aws"@,
        "/opt/homebrew/bin/aws"@,
        "/usr/local/aws-cli/v2/current/bin/aws"@,
    ]
}

/// The candidate locations of the tool, in the order in which they are
/// tried: `aws` in each directory of `PATH`, then the common install
/// locations. The first candidate that is a file is used; `aws` itself when
/// none is.
pub fn aws_cli_candidates(path_dirs: &Vec<String>) -> (r: Vec<String>)
    ensures
        views(r@) == Seq::new(path_dirs@.len(), |i: int| path_join(path_dirs@[i]@, "aws"@))
            + fallback_locations(),
{
    let mut r: Vec<String> = Vec::new();
    let mut i: usize = 0;
    while i < path_dirs.len()
        invariant
            i <= path_dirs.len(),
            views(r@) == Seq::new(i as nat, |k: int| path_join(path_dirs@[k]@, "aws"@)),
        decreases path_dirs.len() - i,
    {
        let c = join_path(path_dirs[i].as_str(), "aws");
        let ghost cv = c@;
        let ghost before = views(r@);
        r.push(c);
        assert(views(r@) =~= before.push(cv));
        assert(views(r@) =~= Seq::new((i + 1) as nat, |k: int| path_join(path_dirs@[k]@, "aws"@)));
        i = i + 1;
    }
    let ghost dirs = views(r@);
    r.push(String::from_str("/usr/local/bin/aws"));
    r.push(String::from_str("/opt/homebrew/bin/aws"));
    r.push(String::from_str("/usr/local/aws-cli/v2/current/bin/aws"));
    assert(views(r@) =~= dirs + fallback_locations());
    r
}

// ---------------------------------------------------------------------------
// Command arguments

/// The arguments that check whether the tool starts.
pub fn check_args() -> (r: Vec<String>)
    ensures
        views(r@) == seq!["--version"@],
{
    let mut r = Vec::new();
    r.push(String::from_str("--version"));
    assert(views(r@) =~= seq!["--version"@]);
    r
}

/// The arguments that list a profile's bucket names as JSON.
pub open spec fn list_buckets_args_of(profile: Seq<char>) -> Seq<Seq<char>> {
    seq![
        "s3api"@,
        "list-buckets"@,
        "--profile"@,
        profile,
        "--query"@,
        "Buckets[].Name"@,
        "--output"@,
        "json"@,
        "--no-cli-pager"@,
    ]
}

/// The arguments that list a profile's bucket names as JSON; the profile is
/// one argument, whatever it holds.
pub fn list_buckets_args(profile: &str) -> (r: Vec<String>)
    ensures
        views(r@) == list_buckets_args_of(profile@),
{
    let mut r = Vec::new();
    r.push(String::from_str("s3api"));
    r.push(String::from_str("list-buckets"));
    r.push(String::from_str("--profile"));
    r.push(String::from_str(profile));
    r.push(String::from_str("--query"));
    r.push(String::from_str("Buckets[].Name"));
    r.push(String::from_str("--output"));
    r.push(String::from_str("json"));
    r.push(String::from_str("--no-cli-pager"));
    assert(views(r@) =~= list_buckets_args_of(profile@));
    r
}

/// The arguments that list the versions of the objects under a key.
pub open spec fn list_object_versions_args_of(
    profile: Seq<char>,
    bucket: Seq<char>,
    key: Seq<char>,
) -> Seq<Seq<char>> {
    seq![
        "s3api"@,
        "list-object-versions"@,
        "--bucket"@,
        bucket,
        "--prefix"@,
        key,
        "--profile"@,
        profile,
        "--output"@,
        "json"@,
        "--no-cli-pager"@,
    ]
}

/// The arguments that list the versions of the objects under a key; each
/// value is one argument, whatever it holds.
pub fn list_object_versions_args(profile: &str, bucket: &str, key: &str) -> (r: Vec<String>)
    ensures
        views(r@) == list_object_versions_args_of(profile@, bucket@, key@),
{
    let mut r = Vec::new();
    r.push(String::from_str("s3api"));
    r.push(String::from_str("list-object-versions"));
    r.push(String::from_str("--bucket"));
    r.push(String::from_str(bucket));
    r.push(String::from_str("--prefix"));
    r.push(String::from_str(key));
    r.push(String::from_str("--profile"));
    r.push(String::from_str(profile));
    r.push(String::from_str("--output"));
    r.push(String::from_str("json"));
    r.push(String::from_str("--no-cli-pager"));
    assert(views(r@) =~= list_object_versions_args_of(profile@, bucket@, key@));
    r
}

/// The arguments that download an object to a local file. The version is
/// passed only when one is given and it is not empty.
pub open spec fn download_object_args_of(
    profile: Seq<char>,
    bucket: Seq<char>,
    key: Seq<char>,
    version_id: Option<Seq<char>>,
    destination: Seq<char>,
) -> Seq<Seq<char>> {
    seq!["s3api"@, "get-object"@, "--bucket"@, bucket, "--key"@, key] + (match version_id {
        Some(v) if v.len() > 0 => seq!["--version-id"@, v],
        _ => seq![],
    }) + seq!["--profile"@, profile, destination, "--no-cli-pager"@]
}

/// The arguments that download an object to a local file; each value is one
/// argument, whatever it holds.
pub fn download_object_args(
    profile: &str,
    bucket: &str,
    key: &str,
    version_id: Option<&str>,
    destination: &str,
) -> (r: Vec<String>)
    ensures
        views(r@) == download_object_args_of(
            profile@,
            bucket@,
            key@,
            match version_id {
                Some(v) => Some(v@),
                None => None,
            },
            destination@,
        ),
{
    let mut r = Vec::new();
    r.push(String::from_str("s3api"));
    r.push(String::from_str("get-object"));
    r.push(String::from_str("--bucket"));
    r.push(String::from_str(bucket));
    r.push(String::from_str("--key"));
    r.push(String::from_str(key));
    match version_id {
        Some(v) => {
            if crate::text::chars_of(v).len() > 0 {
                r.push(String::from_str("--version-id"));
                r.push(String::from_str(v));
            }
        },
        None => {},
    }
    r.push(String::from_str("--profile"));
    r.push(String::from_str(profile));
    r.push(String::from_str(destination));
    r.push(String::from_str("--no-cli-pager"));
    proof {
        let vv = match version_id {
            Some(v) => Some(v@),
            None => None,
        };
        assert(views(r@) =~= download_object_args_of(profile@, bucket@, key@, vv, destination@));
    }
    r
}

// ---------------------------------------------------------------------------
// Outcomes of a run

/// How a run of the tool ended, as the caller observed it.
pub enum CommandOutcome {
    /// The process could not be started.
    NotStarted {
        /// Whether the reason is that no executable was found.
        not_found: bool,
        /// The text of the error.
        error: String,
    },
    /// The process ran to its end.
    Finished {
        /// Whether its exit status reports success.
        success: bool,
        stdout: Vec<u8>,
        /// Its standard error, decoded as UTF-8 with invalid sequences replaced.
        stderr: String,
        /// Its exit status, as displayed.
        status: String,
    },
}

/// The message for a run that could not be started.
pub open spec fn start_error_message(not_found: bool, operation: Seq<char>, error: Seq<char>) -> Seq<
    char,
> {
    if not_found {
        "The AWS CLI is not installed or not available on PATH while "@ + operation + "."@
    } else {
        "Unable to start the AWS CLI while "@ + operation + ": "@ + error
    }
}

/// Explains why a run could not be started.
pub fn command_start_error(not_found: bool, operation: &str, error: &str) -> (r: String)
    ensures
        r@ == start_error_message(not_found, operation@, error@),
{
    if not_found {
        concat3("The AWS CLI is not installed or not available on PATH while ", operation, ".")
    } else {
        let mut r = concat3("Unable to start the AWS CLI while ", operation, ": ");
        r.append(error);
        r
    }
}

/// The message for a run that ended in failure: the trimmed standard error
/// when there is any, the exit status otherwise.
pub open spec fn failure_message(operation: Seq<char>, stderr: Seq<char>, status: Seq<char>) -> Seq<
    char,
> {
    if trim(stderr).len() > 0 {
        operation + " failed: "@ + trim(stderr)
    } else {
        operation + " failed with status "@ + status + "."@
    }
}

/// Explains why a run failed.
pub fn command_failure(operation: &str, stderr: &str, status: &str) -> (r: String)
    ensures
        r@ == failure_message(operation@, stderr@, status@),
{
    let t = trimmed(stderr);
    if !crate::text::blank(stderr) {
        proof {
            crate::text::lemma_blank_iff_trim_empty(stderr@);
        }
        concat3(operation, " failed: ", t.as_str())
    } else {
        proof {
            crate::text::lemma_blank_iff_trim_empty(stderr@);
        }
        let mut r = concat3(operation, " failed with status ", status);
        r.append(".");
        r
    }
}

/// What a run gives: its standard output when it succeeded, the message
/// explaining what went wrong otherwise.
pub open spec fn run_result(outcome: CommandOutcome, operation: Seq<char>) -> Result<Seq<u8>, Seq<char>> {
    match outcome {
        CommandOutcome::NotStarted { not_found, error } => Err(
            start_error_message(not_found, operation, error@),
        ),
        CommandOutcome::Finished { success, stdout, stderr, status } => if success {
            Ok(stdout@)
        } else {
            Err(failure_message(operation, stderr@, status@))
        },
    }
}

/// The view of a result that carries bytes.
pub open spec fn bytes_result_view(r: Result<Vec<u8>, String>) -> Result<Seq<u8>, Seq<char>> {
    match r {
        Ok(v) => Ok(v@),
        Err(e) => Err(e@),
    }
}

/// Interprets the outcome of a run of `operation`.
pub fn run_command(outcome: CommandOutcome, operation: &str) -> (r: Result<Vec<u8>, String>)
    ensures
        bytes_result_view(r) == run_result(outcome, operation@),
{
    match outcome {
        CommandOutcome::NotStarted { not_found, error } => Err(
            command_start_error(not_found, operation, error.as_str()),
        ),
        CommandOutcome::Finished { success, stdout, stderr, status } => {
            if success {
                Ok(stdout)
            } else {
                Err(command_failure(operation, stderr.as_str(), status.as_str()))
            }
        },
    }
}

/// The view of a result that carries nothing.
pub open spec fn unit_result_view(r: Result<(), String>) -> Result<(), Seq<char>> {
    match r {
        Ok(()) => Ok(()),
        Err(e) => Err(e@),
    }
}

/// What checking for the tool gives.
pub open spec fn check_result(outcome: CommandOutcome) -> Result<(), Seq<char>> {
    match outcome {
        CommandOutcome::NotStarted { not_found, error } => Err(
            start_error_message(not_found, "checking for the AWS CLI"@, error@),
        ),
        CommandOutcome::Finished { success, stdout, stderr, status } => if success {
            Ok(())
        } else {
            Err(failure_message("Checking for the AWS CLI"@, stderr@, status@))
        },
    }
}

/// Interprets the outcome of running the tool with [`check_args`]: whether
/// it can be started.
pub fn check_aws_cli(outcome: CommandOutcome) -> (r: Result<(), String>)
    ensures
        unit_result_view(r) == check_result(outcome),
{
    match outcome {
        CommandOutcome::NotStarted { not_found, error } => Err(
            command_start_error(not_found, "checking for the AWS CLI", error.as_str()),
        ),
        CommandOutcome::Finished { success, stdout, stderr, status } => {
            if success {
                Ok(())
            } else {
                Err(command_failure("Checking for the AWS CLI", stderr.as_str(), status.as_str()))
            }
        },
    }
}

// ---------------------------------------------------------------------------
// Bucket names

/// The view of a result that carries strings.
pub open spec fn strings_result_view(r: Result<Vec<String>, String>) -> Result<
    Seq<Seq<char>>,
    Seq<char>,
> {
    match r {
        Ok(v) => Ok(views(v@)),
        Err(e) => Err(e@),
    }
}

/// Whether `r` is what interpreting the decoded bucket list `decoded` gives:
/// the distinct names, sorted (see `lemma_sorted_set`), or the decoding
/// error behind a fixed prefix.
pub open spec fn bucket_names_match(
    decoded: Result<Seq<Seq<char>>, Seq<char>>,
    r: Result<Seq<Seq<char>>, Seq<char>>,
) -> bool {
    match decoded {
        Ok(names) => r == Ok::<Seq<Seq<char>>, Seq<char>>(sorted_set(names)),
        Err(e) => r == Err::<Seq<Seq<char>>, Seq<char>>(
            "AWS CLI returned invalid bucket JSON: "@ + e,
        ),
    }
}

/// Interprets a decoded list of bucket names.
pub fn bucket_names_from(decoded: Result<Vec<String>, String>) -> (r: Result<Vec<String>, String>)
    ensures
        bucket_names_match(crate::json::string_list_view(decoded), strings_result_view(r)),
{
    match decoded {
        Ok(names) => Ok(sort_dedup(names)),
        Err(error) => Err(concat("AWS CLI returned invalid bucket JSON: ", error.as_str())),
    }
}

/// The bucket names in the JSON printed by [`list_buckets_args`], sorted and
/// without repetitions.
pub fn parse_bucket_names(stdout: &[u8]) -> (r: Result<Vec<String>, String>)
    ensures
        bucket_names_match(json_string_list(stdout@), strings_result_view(r)),
{
    let decoded = decode_string_list(stdout);
    bucket_names_from(decoded)
}

/// Whether a bucket-listing error says that access was denied.
pub open spec fn access_denied(error: Seq<char>) -> bool {
    contains_text(error, "AccessDenied"@)
}

/// Whether an error from the tool reports that access was denied.
pub fn is_access_denied_error(error: &str) -> (r: bool)
    ensures
        r == access_denied(error@),
{
    contains(error, "AccessDenied")
}

/// The operation named in the messages about listing buckets.
pub open spec fn list_buckets_operation(profile: Seq<char>) -> Seq<char> {
    "Listing S3 buckets for profile '"@ + profile + "'"@
}

/// Interprets the outcome of running the tool with
/// [`list_buckets_args`]`(profile)`: the profile's bucket names, sorted and
/// without repetitions, or the message explaining what went wrong.
pub fn list_buckets(profile: &str, outcome: CommandOutcome) -> (r: Result<Vec<String>, String>)
    ensures
        match run_result(outcome, list_buckets_operation(profile@)) {
            Ok(stdout) => bucket_names_match(json_string_list(stdout), strings_result_view(r)),
            Err(e) => strings_result_view(r) == Err::<Seq<Seq<char>>, Seq<char>>(e),
        },
{
    let operation = concat3("Listing S3 buckets for profile '", profile, "'");
    match run_command(outcome, operation.as_str()) {
        Ok(stdout) => parse_bucket_names(stdout.as_slice()),
        Err(error) => Err(error),
    }
}

// ---------------------------------------------------------------------------
// Object versions

/// The version that one entry of the `Versions` array describes: nothing
/// when its key is not the requested one, an error when a field is missing
/// or has the wrong type. Fields are checked in the order key, version id,
/// latest flag, modification time, size.
pub open spec fn entry_version(entry: JsonValue, requested_key: Seq<char>) -> Result<
    Option<ObjectVersionView>,
    Seq<char>,
> {
    match json_str(json_get(entry, "Key"@)) {
        None => Err("AWS CLI returned an object version without a Key."@),
        Some(key) => if key != requested_key {
            Ok(None)
        } else {
            match json_str(json_get(entry, "VersionId"@)) {
                None => Err("AWS CLI returned an object version without a VersionId."@),
                Some(version_id) => match json_bool(json_get(entry, "IsLatest"@)) {
                    None => Err(
                        "AWS CLI returned an object version without a valid IsLatest value."@,
                    ),
                    Some(is_latest) => match json_str(json_get(entry, "LastModified"@)) {
                        None => Err(
                            "AWS CLI returned an object version without a LastModified value."@,
                        ),
                        Some(last_modified) => match json_u64(json_get(entry, "Size"@)) {
                            None => Err(
                                "AWS CLI returned an object version without a valid Size."@,
                            ),
                            Some(size) => Ok(
                                Some(
                                    ObjectVersionView {
                                        key,
                                        version_id,
                                        is_latest,
                                        last_modified,
                                        size,
                                    },
                                ),
                            ),
                        },
                    },
                },
            }
        },
    }
}

/// The versions that the entries describe, in order, or the error of the
/// first entry that has one.
pub open spec fn entries_versions(entries: Seq<JsonValue>, requested_key: Seq<char>) -> Result<
    Seq<ObjectVersionView>,
    Seq<char>,
>
    decreases entries.len(),
{
    if entries.len() == 0 {
        Ok(seq![])
    } else {
        match entries_versions(entries.drop_last(), requested_key) {
            Err(e) => Err(e),
            Ok(found) => match entry_version(entries.last(), requested_key) {
                Err(e) => Err(e),
                Ok(None) => Ok(found),
                Ok(Some(v)) => Ok(found.push(v)),
            },
        }
    }
}

/// Whether `a` is listed before `b`: latest first, then most recently
/// modified first, then by version id.
pub open spec fn version_precedes(a: ObjectVersionView, b: ObjectVersionView) -> bool {
    ||| (a.is_latest && !b.is_latest)
    ||| (a.is_latest == b.is_latest && lex_lt(b.last_modified, a.last_modified))
    ||| (a.is_latest == b.is_latest && a.last_modified == b.last_modified && lex_lt(
        a.version_id,
        b.version_id,
    ))
}

/// `x` placed into `sorted` after every element that it does not precede.
pub open spec fn insert_version(sorted: Seq<ObjectVersionView>, x: ObjectVersionView) -> Seq<
    ObjectVersionView,
>
    decreases sorted.len(),
{
    if sorted.len() == 0 {
        seq![x]
    } else if version_precedes(x, sorted.last()) {
        insert_version(sorted.drop_last(), x).push(sorted.last())
    } else {
        sorted.push(x)
    }
}

/// The versions in listing order, versions that compare equal keeping their
/// order: a stable sort by [`version_precedes`].
pub open spec fn sort_versions(s: Seq<ObjectVersionView>) -> Seq<ObjectVersionView>
    decreases s.len(),
{
    if s.len() == 0 {
        s
    } else {
        insert_version(sort_versions(s.drop_last()), s.last())
    }
}

/// What interpreting a decoded version listing gives.
pub open spec fn versions_of_document(
    document: Result<JsonValue, Seq<char>>,
    requested_key: Seq<char>,
) -> Result<Seq<ObjectVersionView>, Seq<char>> {
    match document {
        Err(e) => Err("AWS CLI returned invalid object version JSON: "@ + e),
        Ok(d) => match json_array(json_get(d, "Versions"@)) {
            None => Err("AWS CLI object version JSON is missing a Versions array."@),
            Some(entries) => match entries_versions(entries, requested_key) {
                Err(e) => Err(e),
                Ok(found) => Ok(sort_versions(found)),
            },
        },
    }
}

/// The view of a result that carries versions.
pub open spec fn versions_result_view(r: Result<Vec<ObjectVersion>, String>) -> Result<
    Seq<ObjectVersionView>,
    Seq<char>,
> {
    match r {
        Ok(v) => Ok(version_views(v@)),
        Err(e) => Err(e@),
    }
}

/// Whether `a` is listed before `b`.
fn precedes(a: &ObjectVersion, b: &ObjectVersion) -> (r: bool)
    ensures
        r == version_precedes(a@, b@),
{
    if a.is_latest != b.is_latest {
        return a.is_latest;
    }
    if str_less(b.last_modified.as_str(), a.last_modified.as_str()) {
        return true;
    }
    if a.last_modified != b.last_modified {
        return false;
    }
    str_less(a.version_id.as_str(), b.version_id.as_str())
}

proof fn lemma_insert_version_at(s: Seq<ObjectVersionView>, x: ObjectVersionView, j: int)
    requires
        0 <= j <= s.len(),
        forall|k: int| j <= k < s.len() ==> version_precedes(x, #[trigger] s[k]),
        j == 0 || !version_precedes(x, s[j - 1]),
    ensures
        insert_version(s, x) == s.take(j).push(x) + s.skip(j),
    decreases s.len() - j,
{
    if s.len() == 0 {
        assert(s.take(j).push(x) + s.skip(j) =~= seq![x]);
    } else if j == s.len() {
        assert(s.take(j).push(x) + s.skip(j) =~= s.push(x));
    } else {
        let t = s.drop_last();
        assert forall|k: int| j <= k < t.len() implies version_precedes(x, #[trigger] t[k]) by {
            assert(t[k] == s[k]);
        }
        if j > 0 {
            assert(t[j - 1] == s[j - 1]);
        }
        lemma_insert_version_at(t, x, j);
        assert(version_precedes(x, s.last()));
        assert((t.take(j).push(x) + t.skip(j)).push(s.last()) =~= s.take(j).push(x) + s.skip(j));
    }
}

/// Sorts versions into listing order, stably.
fn sort_version_list(items: Vec<ObjectVersion>) -> (r: Vec<ObjectVersion>)
    ensures
        version_views(r@) == sort_versions(version_views(items@)),
{
    let ghost src = version_views(items@);
    let mut r: Vec<ObjectVersion> = Vec::new();
    let mut items = items;
    let mut rest: Vec<ObjectVersion> = Vec::new();
    assert(version_views(rest@) =~= Seq::<ObjectVersionView>::empty());
    // Take the items from the back, then insert them front to back.
    while items.len() > 0
        invariant
            version_views(rest@) + version_views(items@).reverse() == src.reverse(),
        decreases items.len(),
    {
        let ghost before_items = version_views(items@);
        let ghost before_rest = version_views(rest@);
        let x = items.pop().unwrap();
        rest.push(x);
        proof {
            assert(version_views(items@) =~= before_items.drop_last());
            assert(version_views(rest@) =~= before_rest.push(x@));
            assert(before_items.reverse() =~= seq![x@] + before_items.drop_last().reverse());
            assert(version_views(rest@) + version_views(items@).reverse() =~= before_rest
                + before_items.reverse());
        }
    }
    // `rest` now holds the items back to front.
    assert(version_views(items@).reverse() =~= Seq::<ObjectVersionView>::empty());
    assert(version_views(rest@) =~= src.reverse());
    let n = rest.len();
    let mut i: usize = 0;
    assert(src.take(0) =~= Seq::<ObjectVersionView>::empty());
    while rest.len() > 0
        invariant
            i + rest.len() == n,
            n == src.len(),
            version_views(rest@) == src.skip(i as int).reverse(),
            version_views(r@) == sort_versions(src.take(i as int)),
        decreases rest.len(),
    {
        let ghost before_rest = version_views(rest@);
        let x = rest.pop().unwrap();
        proof {
            assert(src.skip(i as int).reverse().last() == src[i as int]);
            assert(x@ == src[i as int]);
            assert(version_views(rest@) =~= before_rest.drop_last());
            assert(src.skip(i as int).reverse().drop_last() =~= src.skip(i + 1).reverse());
        }
        let ghost sorted = version_views(r@);
        let mut j = r.len();
        while j > 0 && precedes(&x, &r[j - 1])
            invariant
                j <= r.len(),
                version_views(r@) == sorted,
                forall|k: int| j <= k < sorted.len() ==> version_precedes(x@, #[trigger] sorted[k]),
            decreases j,
        {
            j = j - 1;
        }
        proof {
            lemma_insert_version_at(sorted, x@, j as int);
            assert(src.take(i + 1).drop_last() =~= src.take(i as int));
            assert(src.take(i + 1).last() == x@);
        }
        r.insert(j, x);
        assert(version_views(r@) =~= sorted.take(j as int).push(x@) + sorted.skip(j as int));
        i = i + 1;
    }
    assert(src.take(n as int) =~= src);
    r
}

/// An error in a prefix of the entries is the error of all of them.
proof fn lemma_prefix_error(entries: Seq<JsonValue>, k: int, requested_key: Seq<char>)
    requires
        0 <= k <= entries.len(),
    ensures
        entries_versions(entries.take(k), requested_key) is Err ==> entries_versions(
            entries,
            requested_key,
        ) == entries_versions(entries.take(k), requested_key),
    decreases entries.len() - k,
{
    if k == entries.len() {
        assert(entries.take(k) =~= entries);
    } else {
        lemma_prefix_error(entries.drop_last(), k, requested_key);
        assert(entries.drop_last().take(k) =~= entries.take(k));
    }
}

/// The versions that a decoded listing holds for exactly `requested_key`.
fn collect_versions(entries: &Vec<JsonValue>, requested_key: &str) -> (r: Result<
    Vec<ObjectVersion>,
    String,
>)
    ensures
        versions_result_view(r) == entries_versions(entries@, requested_key@),
{
    let mut parsed: Vec<ObjectVersion> = Vec::new();
    assert(version_views(parsed@) =~= Seq::<ObjectVersionView>::empty());
    let wanted = String::from_str(requested_key);
    let mut i: usize = 0;
    assert(entries@.take(0) =~= Seq::<JsonValue>::empty());
    while i < entries.len()
        invariant
            i <= entries.len(),
            wanted@ == requested_key@,
            entries_versions(entries@.take(i as int), requested_key@) == Ok::<
                Seq<ObjectVersionView>,
                Seq<char>,
            >(version_views(parsed@)),
        decreases entries.len() - i,
    {
        let entry = &entries[i];
        proof {
            assert(entries@.take(i + 1).drop_last() =~= entries@.take(i as int));
            assert(entries@.take(i + 1).last() == entries@[i as int]);
            lemma_prefix_error(entries@, i + 1, requested_key@);
        }
        let key = match entry.get("Key") {
            Some(v) => match v.as_str() {
                Some(s) => s,
                None => {
                    return Err(String::from_str("AWS CLI returned an object version without a Key."));
                },
            },
            None => {
                return Err(String::from_str("AWS CLI returned an object version without a Key."));
            },
        };
        if *key != wanted {
            assert(entry_version(entries@[i as int], requested_key@) == Ok::<
                Option<ObjectVersionView>,
                Seq<char>,
            >(None));
            i = i + 1;
            continue;
        }
        let version_id = match entry.get("VersionId") {
            Some(v) => match v.as_str() {
                Some(s) => s,
                None => {
                    return Err(
                        String::from_str("AWS CLI returned an object version without a VersionId."),
                    );
                },
            },
            None => {
                return Err(
                    String::from_str("AWS CLI returned an object version without a VersionId."),
                );
            },
        };
        let is_latest = match entry.get("IsLatest") {
            Some(v) => match v.as_bool() {
                Some(b) => b,
                None => {
                    return Err(
                        String::from_str(
                            "AWS CLI returned an object version without a valid IsLatest value.",
                        ),
                    );
                },
            },
            None => {
                return Err(
                    String::from_str(
                        "AWS CLI returned an object version without a valid IsLatest value.",
                    ),
                );
            },
        };
        let last_modified = match entry.get("LastModified") {
            Some(v) => match v.as_str() {
                Some(s) => s,
                None => {
                    return Err(
                        String::from_str(
                            "AWS CLI returned an object version without a LastModified value.",
                        ),
                    );
                },
            },
            None => {
                return Err(
                    String::from_str(
                        "AWS CLI returned an object version without a LastModified value.",
                    ),
                );
            },
        };
        let size = match entry.get("Size") {
            Some(v) => match v.as_u64() {
                Some(n) => n,
                None => {
                    return Err(
                        String::from_str("AWS CLI returned an object version without a valid Size."),
                    );
                },
            },
            None => {
                return Err(
                    String::from_str("AWS CLI returned an object version without a valid Size."),
                );
            },
        };
        let ghost found = version_views(parsed@);
        let item = ObjectVersion {
            key: key.clone(),
            version_id: version_id.clone(),
            is_latest,
            last_modified: last_modified.clone(),
            size,
        };
        assert(json_str(json_get(entries@[i as int], "Key"@)) == Some(key@));
        assert(entry_version(entries@[i as int], requested_key@) == Ok::<
            Option<ObjectVersionView>,
            Seq<char>,
        >(Some(item@)));
        parsed.push(item);
        assert(version_views(parsed@) =~= found.push(item@));
        assert(version_views(parsed@) =~= version_views(parsed@).drop_last().push(
            version_views(parsed@).last(),
        ));
        i = i + 1;
    }
    assert(entries@.take(entries.len() as int) =~= entries@);
    Ok(parsed)
}

/// Interprets a decoded version listing: the versions of exactly
/// `requested_key`, latest first, then most recently modified first, then by
/// version id.
pub fn versions_from_document(document: Result<JsonValue, String>, requested_key: &str) -> (r:
    Result<Vec<ObjectVersion>, String>)
    ensures
        versions_result_view(r) == versions_of_document(
            crate::json::document_view(document),
            requested_key@,
        ),
{
    match document {
        Err(error) => Err(concat("AWS CLI returned invalid object version JSON: ", error.as_str())),
        Ok(d) => {
            match d.get("Versions") {
                None => Err(
                    String::from_str("AWS CLI object version JSON is missing a Versions array."),
                ),
                Some(v) => match v.as_array() {
                    None => Err(
                        String::from_str("AWS CLI object version JSON is missing a Versions array."),
                    ),
                    Some(entries) => match collect_versions(entries, requested_key) {
                        Err(e) => Err(e),
                        Ok(found) => Ok(sort_version_list(found)),
                    },
                },
            }
        },
    }
}

/// The versions of exactly `requested_key` in the JSON printed by
/// [`list_object_versions_args`], in listing order.
pub fn parse_object_versions(stdout: &[u8], requested_key: &str) -> (r: Result<
    Vec<ObjectVersion>,
    String,
>)
    ensures
        versions_result_view(r) == versions_of_document(json_document(stdout@), requested_key@),
{
    let document = decode_document(stdout);
    versions_from_document(document, requested_key)
}

/// The operation named in the messages about listing versions.
pub open spec fn list_versions_operation(bucket: Seq<char>, key: Seq<char>) -> Seq<char> {
    "Listing object versions for s3://"@ + bucket + "/"@ + key
}

/// Interprets the outcome of running the tool with
/// [`list_object_versions_args`]`(profile, bucket, key)`.
pub fn list_object_versions(
    profile: &str,
    bucket: &str,
    key: &str,
    outcome: CommandOutcome,
) -> (r: Result<Vec<ObjectVersion>, String>)
    ensures
        match run_result(outcome, list_versions_operation(bucket@, key@)) {
            Ok(stdout) => versions_result_view(r) == versions_of_document(
                json_document(stdout),
                key@,
            ),
            Err(e) => versions_result_view(r) == Err::<Seq<ObjectVersionView>, Seq<char>>(e),
        },
{
    let mut operation = concat3("Listing object versions for s3://", bucket, "/");
    operation.append(key);
    match run_command(outcome, operation.as_str()) {
        Ok(stdout) => parse_object_versions(stdout.as_slice(), key),
        Err(error) => Err(error),
    }
}

/// The operation named in the messages about a download.
pub open spec fn download_operation(bucket: Seq<char>, key: Seq<char>) -> Seq<char> {
    "Downloading s3://"@ + bucket + "/"@ + key
}

/// Interprets the outcome of running the tool with [`download_object_args`]
/// for `bucket` and `key`.
pub fn download_object(bucket: &str, key: &str, outcome: CommandOutcome) -> (r: Result<(), String>)
    ensures
        unit_result_view(r) == match run_result(outcome, download_operation(bucket@, key@)) {
            Ok(_) => Ok::<(), Seq<char>>(()),
            Err(e) => Err(e),
        },
{
    let mut operation = concat3("Downloading s3://", bucket, "/");
    operation.append(key);
    match run_command(outcome, operation.as_str()) {
        Ok(_) => Ok(()),
        Err(error) => Err(error),
    }
}


// ---------------------------------------------------------------------------
// Laws of the commands

/// The download passes `--version-id` exactly when a non-empty version is
/// given, and then right before that version; the key always follows
/// `--key`, and every value is one argument next to its flag.
pub proof fn law_version_flag_only_when_given(
    profile: Seq<char>,
    bucket: Seq<char>,
    key: Seq<char>,
    version_id: Option<Seq<char>>,
    destination: Seq<char>,
)
    ensures
        ({
            let args = download_object_args_of(profile, bucket, key, version_id, destination);
            if version_id is Some && version_id->0.len() > 0 {
                args == seq![
                    "s3api"@,
                    "get-object"@,
                    "--bucket"@,
                    bucket,
                    "--key"@,
                    key,
                    "--version-id"@,
                    version_id->0,
                    "--profile"@,
                    profile,
                    destination,
                    "--no-cli-pager"@,
                ]
            } else {
                args == seq![
                    "s3api"@,
                    "get-object"@,
                    "--bucket"@,
                    bucket,
                    "--key"@,
                    key,
                    "--profile"@,
                    profile,
                    destination,
                    "--no-cli-pager"@,
                ]
            }
        }),
        ({
            let args = download_object_args_of(profile, bucket, key, version_id, destination);
            &&& args[4] == "--key"@
            &&& args[5] == key
            &&& args[2] == "--bucket"@
            &&& args[3] == bucket
        }),
{
    let args = download_object_args_of(profile, bucket, key, version_id, destination);
    if version_id is Some && version_id->0.len() > 0 {
        assert(args =~= seq![
            "s3api"@,
            "get-object"@,
            "--bucket"@,
            bucket,
            "--key"@,
            key,
            "--version-id"@,
            version_id->0,
            "--profile"@,
            profile,
            destination,
            "--no-cli-pager"@,
        ]);
    } else {
        assert(args =~= seq![
            "s3api"@,
            "get-object"@,
            "--bucket"@,
            bucket,
            "--key"@,
            key,
            "--profile"@,
            profile,
            destination,
            "--no-cli-pager"@,
        ]);
    }
}

/// Listing buckets asks the profile for the bucket names as JSON, the
/// format that [`parse_bucket_names`] decodes; the profile is one argument
/// right after `--profile`.
pub proof fn law_bucket_listing_asks_for_json_names(profile: Seq<char>)
    ensures
        list_buckets_args_of(profile) == seq![
            "s3api"@,
            "list-buckets"@,
            "--profile"@,
            profile,
            "--query"@,
            "Buckets[].Name"@,
            "--output"@,
            "json"@,
            "--no-cli-pager"@,
        ],
        list_buckets_args_of(profile)[6] == "--output"@,
        list_buckets_args_of(profile)[7] == "json"@,
{
}

/// Listing versions asks for every version under the key as JSON, the
/// format that [`parse_object_versions`] decodes; each value follows its
/// flag as one argument.
pub proof fn law_version_listing_asks_for_json(
    profile: Seq<char>,
    bucket: Seq<char>,
    key: Seq<char>,
)
    ensures
        list_object_versions_args_of(profile, bucket, key) == seq![
            "s3api"@,
            "list-object-versions"@,
            "--bucket"@,
            bucket,
            "--prefix"@,
            key,
            "--profile"@,
            profile,
            "--output"@,
            "json"@,
            "--no-cli-pager"@,
        ],
{
}

/// The tool is looked up in each `PATH` directory in order, then in the
/// three usual macOS install locations, in this order.
pub proof fn law_tool_locations()
    ensures
        fallback_locations() == seq![
            "/usr/local/bin/aws"@,
            "/opt/homebrew/bin/aws"@,
            "/usr/local/aws-cli/v2/current/bin/aws"@,
        ],
{
}

// ---------------------------------------------------------------------------
// Laws of the version listing

proof fn lemma_precedes_irreflexive(a: ObjectVersionView)
    ensures
        !version_precedes(a, a),
{
    crate::text::lemma_lex_irreflexive(a.last_modified);
    crate::text::lemma_lex_irreflexive(a.version_id);
}

proof fn lemma_precedes_transitive(a: ObjectVersionView, b: ObjectVersionView, c: ObjectVersionView)
    requires
        version_precedes(a, b),
        version_precedes(b, c),
    ensures
        version_precedes(a, c),
{
    if a.is_latest == b.is_latest && b.is_latest == c.is_latest {
        if lex_lt(b.last_modified, a.last_modified) && lex_lt(c.last_modified, b.last_modified) {
            crate::text::lemma_lex_transitive(c.last_modified, b.last_modified, a.last_modified);
        } else if a.last_modified == b.last_modified && b.last_modified == c.last_modified {
            crate::text::lemma_lex_transitive(a.version_id, b.version_id, c.version_id);
        }
    }
}

proof fn lemma_precedes_asymmetric(a: ObjectVersionView, b: ObjectVersionView)
    requires
        version_precedes(a, b),
    ensures
        !version_precedes(b, a),
{
    if version_precedes(b, a) {
        lemma_precedes_transitive(a, b, a);
        lemma_precedes_irreflexive(a);
    }
}

/// Versions with the same listing key are interchangeable for the order.
spec fn same_listing_key(a: ObjectVersionView, b: ObjectVersionView) -> bool {
    a.is_latest == b.is_latest && a.last_modified == b.last_modified && a.version_id == b.version_id
}

proof fn lemma_precedes_total(a: ObjectVersionView, b: ObjectVersionView)
    requires
        !same_listing_key(a, b),
    ensures
        version_precedes(a, b) || version_precedes(b, a),
{
    if a.is_latest == b.is_latest {
        if a.last_modified != b.last_modified {
            crate::text::lemma_lex_total(a.last_modified, b.last_modified);
        } else {
            crate::text::lemma_lex_total(a.version_id, b.version_id);
        }
    }
}

proof fn lemma_precedes_negative_transitive(
    a: ObjectVersionView,
    b: ObjectVersionView,
    c: ObjectVersionView,
)
    requires
        !version_precedes(a, b),
        !version_precedes(b, c),
    ensures
        !version_precedes(a, c),
{
    if version_precedes(a, c) {
        if same_listing_key(a, b) {
            assert(version_precedes(b, c));
        } else if same_listing_key(b, c) {
            assert(version_precedes(a, b));
        } else {
            lemma_precedes_total(a, b);
            lemma_precedes_transitive(b, a, c);
        }
    }
}

/// Whether no version is listed after one that it precedes.
pub open spec fn in_listing_order(s: Seq<ObjectVersionView>) -> bool {
    forall|i: int, j: int| 0 <= i < j < s.len() ==> !version_precedes(#[trigger] s[j], #[trigger] s[i])
}

proof fn lemma_insert_version_multiset(t: Seq<ObjectVersionView>, x: ObjectVersionView)
    ensures
        insert_version(t, x).to_multiset() == t.to_multiset().insert(x),
    decreases t.len(),
{
    broadcast use vstd::seq_lib::group_to_multiset_ensures;

    if t.len() == 0 {
        assert(seq![x] =~= t.push(x));
    } else if version_precedes(x, t.last()) {
        lemma_insert_version_multiset(t.drop_last(), x);
        assert(t =~= t.drop_last().push(t.last()));
        assert(insert_version(t, x).to_multiset() =~= t.to_multiset().insert(x));
    }
}

proof fn lemma_insert_version_ordered(t: Seq<ObjectVersionView>, x: ObjectVersionView)
    requires
        in_listing_order(t),
    ensures
        in_listing_order(insert_version(t, x)),
    decreases t.len(),
{
    broadcast use vstd::seq_lib::group_to_multiset_ensures;

    if t.len() == 0 {
    } else if version_precedes(x, t.last()) {
        let u = t.drop_last();
        let last = t.last();
        lemma_insert_version_ordered(u, x);
        lemma_insert_version_multiset(u, x);
        let v = insert_version(u, x);
        let r = v.push(last);
        assert forall|i: int, j: int| 0 <= i < j < r.len() implies !version_precedes(
            #[trigger] r[j],
            #[trigger] r[i],
        ) by {
            if j == r.len() - 1 {
                let y = r[i];
                assert(v.contains(y));
                assert(v.to_multiset().count(y) > 0);
                if y == x {
                    lemma_precedes_asymmetric(x, last);
                } else {
                    assert(u.to_multiset().count(y) > 0);
                    assert(u.contains(y));
                    let k = choose|k: int| 0 <= k < u.len() && u[k] == y;
                    assert(t[k] == y);
                    assert(t[t.len() - 1] == last);
                }
            } else {
                assert(r[i] == v[i] && r[j] == v[j]);
            }
        }
    } else {
        let r = t.push(x);
        assert forall|i: int, j: int| 0 <= i < j < r.len() implies !version_precedes(
            #[trigger] r[j],
            #[trigger] r[i],
        ) by {
            if j == r.len() - 1 {
                if i < t.len() - 1 {
                    assert(!version_precedes(t[t.len() - 1], t[i]));
                    lemma_precedes_negative_transitive(x, t[t.len() - 1], t[i]);
                }
            } else {
                assert(r[i] == t[i] && r[j] == t[j]);
            }
        }
    }
}

/// The listing holds exactly the versions found, each as often as found.
pub proof fn law_listing_is_a_permutation(s: Seq<ObjectVersionView>)
    ensures
        sort_versions(s).to_multiset() == s.to_multiset(),
    decreases s.len(),
{
    broadcast use vstd::seq_lib::group_to_multiset_ensures;

    if s.len() > 0 {
        law_listing_is_a_permutation(s.drop_last());
        lemma_insert_version_multiset(sort_versions(s.drop_last()), s.last());
        assert(s =~= s.drop_last().push(s.last()));
    } else {
        assert(sort_versions(s) =~= s);
    }
}

/// The listing is in order: latest first, then most recently modified
/// first, then by version id.
pub proof fn law_listing_is_ordered(s: Seq<ObjectVersionView>)
    ensures
        in_listing_order(sort_versions(s)),
    decreases s.len(),
{
    if s.len() > 0 {
        law_listing_is_ordered(s.drop_last());
        lemma_insert_version_ordered(sort_versions(s.drop_last()), s.last());
    }
}

proof fn lemma_entries_have_key(entries: Seq<JsonValue>, requested_key: Seq<char>)
    ensures
        entries_versions(entries, requested_key) matches Ok(found) ==> forall|i: int|
            0 <= i < found.len() ==> (#[trigger] found[i]).key == requested_key,
    decreases entries.len(),
{
    if entries.len() > 0 {
        lemma_entries_have_key(entries.drop_last(), requested_key);
    }
}

/// Every version listed for a key is a version of exactly that key.
pub proof fn law_listed_versions_have_the_requested_key(
    document: Result<JsonValue, Seq<char>>,
    requested_key: Seq<char>,
)
    ensures
        versions_of_document(document, requested_key) matches Ok(listed) ==> forall|i: int|
            0 <= i < listed.len() ==> (#[trigger] listed[i]).key == requested_key,
{
    broadcast use vstd::seq_lib::group_to_multiset_ensures;

    if let Ok(d) = document {
        if let Some(entries) = json_array(json_get(d, "Versions"@)) {
            lemma_entries_have_key(entries, requested_key);
            if let Ok(found) = entries_versions(entries, requested_key) {
                law_listing_is_a_permutation(found);
                let listed = sort_versions(found);
                assert forall|i: int| 0 <= i < listed.len() implies (#[trigger] listed[i]).key
                    == requested_key by {
                    assert(listed.contains(listed[i]));
                    assert(listed.to_multiset().count(listed[i]) > 0);
                    assert(found.contains(listed[i]));
                }
            }
        }
    }
}


/// The key that a listing entry names, when it names one as a string.
pub open spec fn entry_key(entry: JsonValue) -> Option<Seq<char>> {
    json_str(json_get(entry, "Key"@))
}

/// Whether every field of a version entry is present with the right type.
pub open spec fn entry_well_typed(entry: JsonValue) -> bool {
    &&& json_str(json_get(entry, "Key"@)) is Some
    &&& json_str(json_get(entry, "VersionId"@)) is Some
    &&& json_bool(json_get(entry, "IsLatest"@)) is Some
    &&& json_str(json_get(entry, "LastModified"@)) is Some
    &&& json_u64(json_get(entry, "Size"@)) is Some
}

/// The version that a well-typed entry describes, field for field.
pub open spec fn entry_fields(entry: JsonValue) -> ObjectVersionView {
    ObjectVersionView {
        key: json_str(json_get(entry, "Key"@))->0,
        version_id: json_str(json_get(entry, "VersionId"@))->0,
        is_latest: json_bool(json_get(entry, "IsLatest"@))->0,
        last_modified: json_str(json_get(entry, "LastModified"@))->0,
        size: json_u64(json_get(entry, "Size"@))->0,
    }
}

/// The versions described by the entries that name `key`, in entry order.
pub open spec fn entries_for_key(entries: Seq<JsonValue>, key: Seq<char>) -> Seq<ObjectVersionView>
    decreases entries.len(),
{
    if entries.len() == 0 {
        seq![]
    } else if entry_key(entries.last()) == Some(key) {
        entries_for_key(entries.drop_last(), key).push(entry_fields(entries.last()))
    } else {
        entries_for_key(entries.drop_last(), key)
    }
}

/// Whether every entry names a key, and every entry naming `key` is well
/// typed.
pub open spec fn listing_well_formed(entries: Seq<JsonValue>, key: Seq<char>) -> bool {
    forall|k: int|
        0 <= k < entries.len() ==> {
            &&& #[trigger] entry_key(entries[k]) is Some
            &&& entry_key(entries[k]) == Some(key) ==> entry_well_typed(entries[k])
        }
}

proof fn lemma_entries_complete(entries: Seq<JsonValue>, key: Seq<char>)
    requires
        listing_well_formed(entries, key),
    ensures
        entries_versions(entries, key) == Ok::<Seq<ObjectVersionView>, Seq<char>>(
            entries_for_key(entries, key),
        ),
    decreases entries.len(),
{
    if entries.len() > 0 {
        let u = entries.drop_last();
        assert forall|k: int| 0 <= k < u.len() implies {
            &&& #[trigger] entry_key(u[k]) is Some
            &&& entry_key(u[k]) == Some(key) ==> entry_well_typed(u[k])
        } by {
            assert(u[k] == entries[k]);
            assert(entry_key(entries[k]) is Some);
        }
        lemma_entries_complete(u, key);
        assert(entry_key(entries[entries.len() - 1]) is Some);
    }
}

/// Completeness of the listing: when the `Versions` array is present, every
/// entry names a key and every entry naming the requested key is well typed,
/// the listing holds exactly the versions of the entries naming that key,
/// each with the entry's field values, as often as such entries occur,
/// whatever their version id.
pub proof fn law_listing_is_complete(document: JsonValue, requested_key: Seq<char>)
    requires
        json_array(json_get(document, "Versions"@)) is Some,
        listing_well_formed(json_array(json_get(document, "Versions"@))->0, requested_key),
    ensures
        versions_of_document(Ok(document), requested_key) is Ok,
        versions_of_document(Ok(document), requested_key)->Ok_0.to_multiset() == entries_for_key(
            json_array(json_get(document, "Versions"@))->0,
            requested_key,
        ).to_multiset(),
{
    let entries = json_array(json_get(document, "Versions"@))->0;
    lemma_entries_complete(entries, requested_key);
    law_listing_is_a_permutation(entries_for_key(entries, requested_key));
}

/// A listing is refused exactly when an entry that is looked at is
/// malformed: an entry without a string key, or an entry for the requested
/// key with a missing or mistyped field.
pub proof fn law_listing_refused_only_for_malformed_entries(
    document: JsonValue,
    requested_key: Seq<char>,
)
    requires
        json_array(json_get(document, "Versions"@)) is Some,
    ensures
        versions_of_document(Ok(document), requested_key) is Ok <==> listing_well_formed(
            json_array(json_get(document, "Versions"@))->0,
            requested_key,
        ),
{
    let entries = json_array(json_get(document, "Versions"@))->0;
    if listing_well_formed(entries, requested_key) {
        lemma_entries_complete(entries, requested_key);
    } else {
        let k = choose|k: int|
            0 <= k < entries.len() && !({
                &&& #[trigger] entry_key(entries[k]) is Some
                &&& entry_key(entries[k]) == Some(requested_key) ==> entry_well_typed(entries[k])
            });
        lemma_malformed_entry_refused(entries, requested_key, k);
    }
}

proof fn lemma_malformed_entry_refused(entries: Seq<JsonValue>, key: Seq<char>, k: int)
    requires
        0 <= k < entries.len(),
        !({
            &&& entry_key(entries[k]) is Some
            &&& entry_key(entries[k]) == Some(key) ==> entry_well_typed(entries[k])
        }),
    ensures
        entries_versions(entries, key) is Err,
    decreases entries.len(),
{
    if k < entries.len() - 1 {
        assert(entries.drop_last()[k] == entries[k]);
        lemma_malformed_entry_refused(entries.drop_last(), key, k);
    } else {
        assert(entries.last() == entries[k]);
    }
}


/// The listing order, field by field: a latest version never comes after
/// one that is not; among versions equally latest, a more recent
/// modification time never comes after a less recent one; and among those
/// modified at the same time, version ids ascend.
pub proof fn law_listing_order_by_fields(s: Seq<ObjectVersionView>)
    ensures
        forall|i: int, j: int|
            #![trigger sort_versions(s)[i], sort_versions(s)[j]]
            0 <= i < j < sort_versions(s).len() ==> {
                let x = sort_versions(s)[i];
                let y = sort_versions(s)[j];
                &&& y.is_latest ==> x.is_latest
                &&& x.is_latest == y.is_latest ==> !lex_lt(x.last_modified, y.last_modified)
                &&& x.is_latest == y.is_latest && x.last_modified == y.last_modified ==> !lex_lt(
                    y.version_id,
                    x.version_id,
                )
            },
{
    law_listing_is_ordered(s);
}

/// A failed run is explained by the operation and the trimmed standard
/// error when there is any, by the exit status otherwise; a run that could
/// not start names the operation, and the error unless the tool is missing.
pub proof fn law_failures_are_explained(
    operation: Seq<char>,
    stderr: Seq<char>,
    status: Seq<char>,
    error: Seq<char>,
)
    ensures
        trim(stderr).len() > 0 ==> failure_message(operation, stderr, status) == operation
            + " failed: "@ + trim(stderr),
        trim(stderr).len() == 0 ==> failure_message(operation, stderr, status) == operation
            + " failed with status "@ + status + "."@,
        start_error_message(true, operation, error)
            == "The AWS CLI is not installed or not available on PATH while "@ + operation + "."@,
        start_error_message(false, operation, error) == "Unable to start the AWS CLI while "@
            + operation + ": "@ + error,
{
}


/// The sort is stable: a version that is not listed before any version
/// already found goes after all of them, whatever their keys.
pub proof fn law_listing_is_stable(s: Seq<ObjectVersionView>, x: ObjectVersionView)
    requires
        forall|k: int| 0 <= k < s.len() ==> !version_precedes(x, #[trigger] s[k]),
    ensures
        sort_versions(s.push(x)) == sort_versions(s).push(x),
{
    broadcast use vstd::seq_lib::group_to_multiset_ensures;

    assert(s.push(x).drop_last() =~= s);
    let t = sort_versions(s);
    if t.len() > 0 {
        law_listing_is_a_permutation(s);
        assert(t.contains(t.last()));
        assert(t.to_multiset().count(t.last()) > 0);
        assert(s.contains(t.last()));
    }
}

} // verus!
