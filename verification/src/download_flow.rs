//! The decisions of downloading an app from the store: what to do after each store reply
//! (buy a licence, ask again, stop, or fetch the package), what the package is, and how it
//! is fetched in chunks.
use vstd::prelude::*;
use crate::apple::{
    first_error_member, get_artwork_from_map, get_license_error_message, is_session_error, lower_text, members_text,
    members_value, spec_artwork, spec_is_session_error, spec_license_error, text_or_empty, to_lower,
};
use crate::json::{json_text, members_get_from, JsonNode};
use crate::naming::{canonical_ipa_filename, canonical_raw_ipa_name, canonical_raw_name, ipa_name_fits, ipa_name_shortenable, opt_str, spec_sanitize_ipa_filename};
use crate::records::{DownloadMetadata, DownloadResult};
use crate::text::{chars_of, contains_run, opt_text, seq_contains_run};

verus! {

/// Which store reply a download is waiting for.
#[derive(Debug, Clone, Copy)]
pub enum DownloadStage {
    /// The first answer to the download query.
    Query,
    /// The answer to the licence request.
    Purchase,
    /// The answer to the download query made after buying a licence.
    Requery,
}

/// What a download does next.
#[derive(Debug, Clone)]
pub enum DownloadStep {
    /// Request a licence, then wait in [`DownloadStage::Purchase`].
    Purchase,
    /// Query the download again, then wait in [`DownloadStage::Requery`].
    Query,
    /// Fetch the package the last reply describes (see [`download_package`]).
    Fetch,
    /// Stop with this outcome.
    Stop(DownloadResult),
}

/// Whether a store reply reports success: its `_state` member is the string `success`.
pub open spec fn reply_ok(reply: Seq<(String, JsonNode)>) -> bool {
    match members_get_from(reply, "_state"@, 0) {
        Some(JsonNode::String(s)) => s@ == "success"@,
        _ => false,
    }
}

/// The phrases of a reply that mean the app must be bought first.
pub open spec fn purchase_phrases() -> Seq<Seq<char>> {
    seq!["license"@, "not found"@, "未购买"@, "未授权"@]
}

/// Whether a reply says that the app must be bought first: its first error member (see
/// [`first_error_member`]), lower-cased, contains one of [`purchase_phrases`].
pub open spec fn spec_needs_purchase(reply: Seq<(String, JsonNode)>) -> bool {
    let message = lower_text(match json_text(first_error_member(reply)) {
        Some(t) => t,
        None => Seq::empty(),
    });
    exists|i: int| 0 <= i < purchase_phrases().len() && seq_contains_run(message, #[trigger] purchase_phrases()[i])
}

/// The message of a failed reply: its customer message, else `下载失败`.
pub open spec fn failure_message(reply: Seq<(String, JsonNode)>) -> Seq<char> {
    match json_text(members_get_from(reply, "customerMessage"@, 0)) {
        Some(t) => t,
        None => "下载失败"@,
    }
}

/// The message of a download stopped because the session is no longer valid.
pub open spec fn reauth_message() -> Seq<char> {
    "会话已失效，请重新登录"@
}

/// Whether a step stops the download with a failure carrying this message and flags.
pub open spec fn stops_with(step: DownloadStep, message: Seq<char>, needs_reauth: bool, needs_purchase: bool) -> bool {
    match step {
        DownloadStep::Stop(res) => !res.ok && res.file is None && res.metadata is None && opt_text(res.error) == Some(message)
            && res.needs_reauth == needs_reauth && res.needs_purchase == needs_purchase,
        _ => false,
    }
}

/// The step after a store reply:
/// * after the first query, a successful reply is fetched; otherwise an invalid session
///   stops for a new sign-in, a reply that needs a purchase buys a licence (when buying is
///   allowed, else stops with the licence message), and any other failure stops with its
///   message;
/// * after a licence request, a success queries again, a failure stops with its licence
///   message;
/// * after the second query, a success is fetched, a failure stops with its licence message.
pub open spec fn spec_next_step(stage: DownloadStage, auto_purchase: bool, reply: Seq<(String, JsonNode)>, step: DownloadStep) -> bool {
    match stage {
        DownloadStage::Query => if reply_ok(reply) {
            step is Fetch
        } else if spec_is_session_error(reply) {
            stops_with(step, reauth_message(), true, false)
        } else if spec_needs_purchase(reply) {
            if auto_purchase {
                step is Purchase
            } else {
                stops_with(step, spec_license_error(reply), false, true)
            }
        } else {
            stops_with(step, failure_message(reply), false, false)
        },
        DownloadStage::Purchase => if reply_ok(reply) {
            step is Query
        } else {
            stops_with(step, spec_license_error(reply), false, true)
        },
        DownloadStage::Requery => if reply_ok(reply) {
            step is Fetch
        } else {
            stops_with(step, spec_license_error(reply), false, true)
        },
    }
}

fn reply_succeeded(reply: &Vec<(String, JsonNode)>) -> (r: bool)
    ensures
        r == reply_ok(reply@),
{
    let success = "success".to_owned();
    match members_value(reply, "_state") {
        Some(JsonNode::String(s)) => *s == success,
        _ => false,
    }
}

fn purchase_phrase(k: usize) -> (r: &'static str)
    requires
        k < 4,
    ensures
        r@ == purchase_phrases()[k as int],
{
    if k == 0 {
        "license"
    } else if k == 1 {
        "not found"
    } else if k == 2 {
        "未购买"
    } else {
        "未授权"
    }
}

/// Whether a reply says that the app must be bought first (see [`spec_needs_purchase`]).
pub fn needs_purchase(reply: &Vec<(String, JsonNode)>) -> (r: bool)
    ensures
        r == spec_needs_purchase(reply@),
{
    let first = match members_value(reply, "failureType") {
        Some(v) => Some(v),
        None => match members_value(reply, "customerMessage") {
            Some(v) => Some(v),
            None => members_value(reply, "message"),
        },
    };
    let text = match first {
        Some(JsonNode::String(s)) => s.clone(),
        _ => String::new(),
    };
    let lowered = to_lower(text.as_str());
    let message = chars_of(lowered.as_str());
    let ghost m = message@;
    let mut k: usize = 0;
    while k < 4
        invariant
            k <= 4,
            m == message@,
            m == lower_text(match json_text(first_error_member(reply@)) {
                Some(t) => t,
                None => Seq::empty(),
            }),
            forall|i: int| 0 <= i < k ==> !seq_contains_run(m, #[trigger] purchase_phrases()[i]),
        decreases 4 - k,
    {
        let phrase = chars_of(purchase_phrase(k));
        if contains_run(message.as_slice(), phrase.as_slice()) {
            assert(seq_contains_run(m, purchase_phrases()[k as int]));
            return true;
        }
        k = k + 1;
    }
    false
}

fn stop(message: String, needs_reauth: bool, needs_purchase: bool) -> (r: DownloadStep)
    ensures
        stops_with(r, message@, needs_reauth, needs_purchase),
{
    DownloadStep::Stop(DownloadResult { ok: false, file: None, metadata: None, error: Some(message), needs_reauth, needs_purchase })
}

/// The step after a store reply (see [`spec_next_step`]).
pub fn next_download_step(stage: DownloadStage, auto_purchase: bool, reply: &Vec<(String, JsonNode)>) -> (r: DownloadStep)
    ensures
        spec_next_step(stage, auto_purchase, reply@, r),
{
    let ok = reply_succeeded(reply);
    match stage {
        DownloadStage::Query => {
            if ok {
                DownloadStep::Fetch
            } else if is_session_error(reply) {
                proof {
                    reveal_strlit("会话已失效，请重新登录");
                }
                stop("会话已失效，请重新登录".to_owned(), true, false)
            } else if needs_purchase(reply) {
                if auto_purchase {
                    DownloadStep::Purchase
                } else {
                    stop(get_license_error_message(reply), false, true)
                }
            } else {
                let message = match members_text(reply, "customerMessage") {
                    Some(t) => t,
                    None => "下载失败".to_owned(),
                };
                stop(message, false, false)
            }
        },
        DownloadStage::Purchase => {
            if ok {
                DownloadStep::Query
            } else {
                stop(get_license_error_message(reply), false, true)
            }
        },
        DownloadStage::Requery => {
            if ok {
                DownloadStep::Fetch
            } else {
                stop(get_license_error_message(reply), false, true)
            }
        },
    }
}

/// A progress report: its phase and message.
#[derive(Debug, Clone)]
pub struct ProgressNote {
    pub phase: String,
    pub message: String,
}

/// The report sent before the first download query.
pub open spec fn spec_start_progress() -> (Seq<char>, Seq<char>) {
    ("auth"@, "[auth] 查询下载信息"@)
}

/// The report sent when a step is taken after a reply in a stage, if any: the session
/// stop reports `session`; buying a licence, and querying again after buying one, report
/// `auth`; other steps report nothing here.
pub open spec fn spec_step_progress(stage: DownloadStage, step: DownloadStep) -> Option<(Seq<char>, Seq<char>)> {
    match (stage, step) {
        (DownloadStage::Query, DownloadStep::Stop(res)) => if res.needs_reauth {
            Some(("session"@, "[session] 检测到会话失效，尝试刷新..."@))
        } else {
            None
        },
        (DownloadStage::Query, DownloadStep::Purchase) => Some(("auth"@, "[purchase] 正在购买应用..."@)),
        (DownloadStage::Purchase, DownloadStep::Query) => Some(("auth"@, "[purchase] 购买成功，重新查询下载信息"@)),
        _ => None,
    }
}

/// The view of a report.
pub open spec fn note_view(n: ProgressNote) -> (Seq<char>, Seq<char>) {
    (n.phase@, n.message@)
}

/// The report sent before the first download query (see [`spec_start_progress`]).
pub fn start_progress() -> (r: ProgressNote)
    ensures
        note_view(r) == spec_start_progress(),
{
    ProgressNote { phase: "auth".to_owned(), message: "[auth] 查询下载信息".to_owned() }
}

/// The report sent when a step is taken (see [`spec_step_progress`]).
pub fn step_progress(stage: DownloadStage, step: &DownloadStep) -> (r: Option<ProgressNote>)
    ensures
        match spec_step_progress(stage, *step) {
            Some(v) => r matches Some(n) && note_view(n) == v,
            None => r is None,
        },
{
    match (stage, step) {
        (DownloadStage::Query, DownloadStep::Stop(res)) => if res.needs_reauth {
            Some(ProgressNote { phase: "session".to_owned(), message: "[session] 检测到会话失效，尝试刷新...".to_owned() })
        } else {
            None
        },
        (DownloadStage::Query, DownloadStep::Purchase) => Some(
            ProgressNote { phase: "auth".to_owned(), message: "[purchase] 正在购买应用...".to_owned() },
        ),
        (DownloadStage::Purchase, DownloadStep::Query) => Some(
            ProgressNote { phase: "auth".to_owned(), message: "[purchase] 购买成功，重新查询下载信息".to_owned() },
        ),
        _ => None,
    }
}

/// The session stop is the only stop after the first query that reports progress, and it
/// reports `session`: a download stopped for a new sign-in has reported `auth`, then
/// `session`, and has bought nothing.
pub proof fn lemma_session_stop_progress(auto_purchase: bool, reply: Seq<(String, JsonNode)>, step: DownloadStep)
    requires
        spec_next_step(DownloadStage::Query, auto_purchase, reply, step),
        !reply_ok(reply),
        spec_is_session_error(reply),
    ensures
        step is Stop,
        spec_start_progress().0 == "auth"@,
        spec_step_progress(DownloadStage::Query, step) matches Some(n) && n.0 == "session"@,
{
}

/// The package a successful reply describes.
#[derive(Debug, Clone)]
pub struct DownloadPackage {
    /// Where the package is fetched from.
    pub file_url: String,
    /// The file name the package is saved under.
    pub file_name: String,
    /// What the reply says of the app.
    pub metadata: DownloadMetadata,
}

/// The first entry of a reply's song list, when the list is a non-empty array.
pub open spec fn first_song(reply: Seq<(String, JsonNode)>) -> Option<JsonNode> {
    match members_get_from(reply, "songList"@, 0) {
        Some(JsonNode::Array(items)) => if items@.len() > 0 { Some(items@[0]) } else { None },
        _ => None,
    }
}

/// The text of member `key`, else `fallback`.
pub open spec fn text_or(members: Seq<(String, JsonNode)>, key: Seq<char>, fallback: Seq<char>) -> Seq<char> {
    match json_text(members_get_from(members, key, 0)) {
        Some(t) => t,
        None => fallback,
    }
}

/// The unsanitised file name of a package with this app metadata: display name (else
/// `Unknown`), version (else `1.0`) and bundle id when there is one.
pub open spec fn package_raw_name(metadata: Seq<(String, JsonNode)>) -> Seq<char> {
    let bundle = text_or_empty(metadata, "bundleId"@);
    canonical_raw_name(
        text_or(metadata, "bundleDisplayName"@, "Unknown"@),
        text_or(metadata, "bundleShortVersionString"@, "1.0"@),
        if bundle.len() == 0 { None } else { Some(bundle) },
    )
}

/// The metadata object of the first song of a reply, when the song is an object.
pub open spec fn song_metadata(reply: Seq<(String, JsonNode)>) -> Option<Seq<(String, JsonNode)>> {
    match first_song(reply) {
        Some(JsonNode::Object(song)) => match members_get_from(song@, "metadata"@, 0) {
            Some(JsonNode::Object(m)) => Some(m@),
            _ => None,
        },
        _ => None,
    }
}

/// Whether the package name of a reply can be made a safe file name (see
/// [`ipa_name_shortenable`]); replies without app metadata qualify.
pub open spec fn spec_package_name_fits(reply: Seq<(String, JsonNode)>) -> bool {
    match song_metadata(reply) {
        Some(m) => ipa_name_shortenable(package_raw_name(m)),
        None => true,
    }
}

/// Whether the package name of a reply can be made a safe file name (see
/// [`spec_package_name_fits`]).
pub fn package_name_fits(reply: &Vec<(String, JsonNode)>) -> (r: bool)
    ensures
        r == spec_package_name_fits(reply@),
{
    let items = match members_value(reply, "songList") {
        Some(JsonNode::Array(items)) => items,
        _ => return true,
    };
    if items.len() == 0 {
        return true;
    }
    let song = match &items[0] {
        JsonNode::Object(m) => m,
        _ => return true,
    };
    let metadata = match members_value(song, "metadata") {
        Some(JsonNode::Object(m)) => m,
        _ => return true,
    };
    assert(first_song(reply@) == Some(items@[0]));
    let display = text_member_or(metadata, "bundleDisplayName", "Unknown");
    let version = text_member_or(metadata, "bundleShortVersionString", "1.0");
    let bundle = text_member_or(metadata, "bundleId", "");
    proof {
        reveal_strlit("");
    }
    let raw = if chars_of(bundle.as_str()).len() == 0 {
        canonical_raw_ipa_name(display.as_str(), version.as_str(), None)
    } else {
        canonical_raw_ipa_name(display.as_str(), version.as_str(), Some(bundle.as_str()))
    };
    ipa_name_fits(raw.as_str())
}

/// The package a successful reply describes, or why it cannot be read: no song list
/// (`Invalid song list`), a first song that is not an object (`Invalid song list format`),
/// no `URL` text (`Invalid file URL`) or no `metadata` object (`Invalid metadata`).  The
/// file name is the safe name of [`package_raw_name`]; the metadata holds the display name,
/// version and bundle id as named there (the last one else empty), the artwork (see
/// [`spec_artwork`]) and the artist name (else empty).
pub open spec fn package_is(reply: Seq<(String, JsonNode)>, r: Result<DownloadPackage, String>) -> bool {
    match first_song(reply) {
        None => r matches Err(e) && e@ == "Invalid song list"@,
        Some(JsonNode::Object(song)) => match json_text(members_get_from(song@, "URL"@, 0)) {
            None => r matches Err(e) && e@ == "Invalid file URL"@,
            Some(url) => match members_get_from(song@, "metadata"@, 0) {
                Some(JsonNode::Object(m)) => r matches Ok(p) && {
                    &&& p.file_url@ == url
                    &&& p.file_name@ == spec_sanitize_ipa_filename(package_raw_name(m@))
                    &&& p.metadata.bundle_display_name@ == text_or(m@, "bundleDisplayName"@, "Unknown"@)
                    &&& p.metadata.bundle_short_version_string@ == text_or(m@, "bundleShortVersionString"@, "1.0"@)
                    &&& p.metadata.bundle_id@ == text_or_empty(m@, "bundleId"@)
                    &&& p.metadata.artwork_url@ == spec_artwork(m@)
                    &&& p.metadata.artist_name@ == text_or_empty(m@, "artistName"@)
                },
                _ => r matches Err(e) && e@ == "Invalid metadata"@,
            },
        },
        Some(_) => r matches Err(e) && e@ == "Invalid song list format"@,
    }
}

fn text_member_or(members: &Vec<(String, JsonNode)>, key: &str, fallback: &str) -> (r: String)
    ensures
        r@ == text_or(members@, key@, fallback@),
{
    match members_text(members, key) {
        Some(t) => t,
        None => fallback.to_owned(),
    }
}

/// The package a successful reply describes (see [`package_is`]).
pub fn download_package(reply: &Vec<(String, JsonNode)>) -> (r: Result<DownloadPackage, String>)
    requires
        spec_package_name_fits(reply@),
    ensures
        package_is(reply@, r),
{
    let items = match members_value(reply, "songList") {
        Some(JsonNode::Array(items)) => items,
        _ => return Err("Invalid song list".to_owned()),
    };
    if items.len() == 0 {
        return Err("Invalid song list".to_owned());
    }
    let song = match &items[0] {
        JsonNode::Object(m) => m,
        _ => return Err("Invalid song list format".to_owned()),
    };
    let file_url = match members_text(song, "URL") {
        Some(u) => u,
        None => return Err("Invalid file URL".to_owned()),
    };
    let metadata = match members_value(song, "metadata") {
        Some(JsonNode::Object(m)) => m,
        _ => return Err("Invalid metadata".to_owned()),
    };
    let display = text_member_or(metadata, "bundleDisplayName", "Unknown");
    let version = text_member_or(metadata, "bundleShortVersionString", "1.0");
    let bundle = text_member_or(metadata, "bundleId", "");
    proof {
        reveal_strlit("");
    }
    let bundle_chars = chars_of(bundle.as_str());
    let file_name = if bundle_chars.len() == 0 {
        canonical_ipa_filename(display.as_str(), version.as_str(), None)
    } else {
        canonical_ipa_filename(display.as_str(), version.as_str(), Some(bundle.as_str()))
    };
    let metadata_info = DownloadMetadata {
        bundle_display_name: display,
        bundle_short_version_string: version,
        bundle_id: bundle,
        artwork_url: get_artwork_from_map(metadata),
        artist_name: text_member_or(metadata, "artistName", ""),
    };
    let r = DownloadPackage { file_url, file_name, metadata: metadata_info };
    assert(first_song(reply@) == Some(items@[0]));
    assert(r.file_url@ == json_text(members_get_from(song@, "URL"@, 0))->0);
    assert(r.file_name@ == spec_sanitize_ipa_filename(package_raw_name(metadata@)));
    assert(r.metadata.bundle_id@ == text_or_empty(metadata@, "bundleId"@));
    assert(r.metadata.artist_name@ == text_or_empty(metadata@, "artistName"@));
    Ok(r)
}

/// The size of the chunks a package is fetched in (5 MiB).
pub open spec fn chunk_size() -> int {
    5242880int
}

/// How many chunks a package of `file_size` bytes is fetched in: the size divided by the
/// chunk size, rounded up.
pub fn chunk_count(file_size: u64) -> (r: u64)
    ensures
        r as int == (file_size as int + chunk_size() - 1) / chunk_size(),
{
    let whole = file_size / 5242880;
    if file_size % 5242880 == 0 {
        whole
    } else {
        whole + 1
    }
}

/// The first and last byte of chunk `index`, and how many bytes are fetched once it is
/// done.
pub fn chunk_range(file_size: u64, index: u64) -> (r: (u64, u64, u64))
    requires
        file_size > 0,
        index < (file_size as int + chunk_size() - 1) / chunk_size(),
    ensures
        r.0 as int == index * chunk_size(),
        r.1 as int == if index * chunk_size() + chunk_size() - 1 < file_size - 1 {
            index * chunk_size() + chunk_size() - 1
        } else {
            file_size - 1
        },
        r.2 as int == if (index + 1) * chunk_size() < file_size { (index + 1) * chunk_size() } else { file_size as int },
{
    assert(index * 5242880 < file_size) by (nonlinear_arith)
        requires
            index < (file_size as int + 5242880 - 1) / 5242880,
            file_size > 0;
    let start = index * 5242880;
    let fits = file_size >= 5242880 && start < file_size - 5242880;
    let last = if fits { start + 5242879 } else { file_size - 1 };
    let done = if fits { start + 5242880 } else { file_size };
    assert((index + 1) * 5242880 == index * 5242880 + 5242880) by (nonlinear_arith);
    (start, last, done)
}

/// Whether a download outcome is consistent: it succeeded exactly when it names a file,
/// exactly when it carries metadata, and exactly when it has no error; a success asks for
/// neither a new sign-in nor a purchase, and no outcome asks for both.
pub open spec fn result_well_formed(r: DownloadResult) -> bool {
    &&& r.ok == r.file is Some
    &&& r.ok == r.metadata is Some
    &&& r.ok == r.error is None
    &&& r.ok ==> !r.needs_reauth && !r.needs_purchase
    &&& !(r.needs_reauth && r.needs_purchase)
}

/// The metadata of a download outcome holds the package's.
pub open spec fn same_metadata(a: DownloadMetadata, b: DownloadMetadata) -> bool {
    &&& a.bundle_display_name@ == b.bundle_display_name@
    &&& a.bundle_short_version_string@ == b.bundle_short_version_string@
    &&& a.bundle_id@ == b.bundle_id@
    &&& a.artwork_url@ == b.artwork_url@
    &&& a.artist_name@ == b.artist_name@
}

/// The outcome of a package fetched and written into `download_dir`: a success naming the
/// package's file in that directory (see [`crate::naming::path_join`]) with its metadata.
pub fn completed_download(download_dir: &str, package: &DownloadPackage) -> (r: DownloadResult)
    ensures
        result_well_formed(r),
        r.ok,
        opt_text(r.file) == Some(crate::naming::path_join(download_dir@, package.file_name@)),
        r.metadata matches Some(m) && same_metadata(m, package.metadata),
        completed_result(r, download_dir@, *package),
{
    let m = &package.metadata;
    DownloadResult {
        ok: true,
        file: Some(crate::naming::join_path(download_dir, package.file_name.as_str())),
        metadata: Some(DownloadMetadata {
            bundle_display_name: m.bundle_display_name.clone(),
            bundle_short_version_string: m.bundle_short_version_string.clone(),
            bundle_id: m.bundle_id.clone(),
            artwork_url: m.artwork_url.clone(),
            artist_name: m.artist_name.clone(),
        }),
        error: None,
        needs_reauth: false,
        needs_purchase: false,
    }
}

/// Every outcome a download ends with is consistent (see [`result_well_formed`]): the stop
/// a store reply leads to, whatever the stage, and the success of a fetched package.
pub proof fn lemma_download_results_well_formed(stage: DownloadStage, auto_purchase: bool, reply: Seq<(String, JsonNode)>, step: DownloadStep)
    requires
        spec_next_step(stage, auto_purchase, reply, step),
    ensures
        step matches DownloadStep::Stop(res) ==> result_well_formed(res),
{
}

/// Whether `r` is the success of a package fetched into `download_dir` (what
/// [`completed_download`] gives).
pub open spec fn completed_result(r: DownloadResult, download_dir: Seq<char>, package: DownloadPackage) -> bool {
    &&& result_well_formed(r)
    &&& r.ok
    &&& opt_text(r.file) == Some(crate::naming::path_join(download_dir, package.file_name@))
    &&& r.metadata matches Some(m) && same_metadata(m, package.metadata)
}

/// Whether `r` is how a download ends after `step`: the stop's outcome, or after a fetch
/// the success of the package the reply describes.
pub open spec fn ends_download(step: DownloadStep, reply: Seq<(String, JsonNode)>, package: Result<DownloadPackage, String>, download_dir: Seq<char>, r: DownloadResult) -> bool {
    match step {
        DownloadStep::Stop(res) => r == res,
        DownloadStep::Fetch => package_is(reply, package) && match package {
            Ok(p) => completed_result(r, download_dir, p),
            Err(_) => false,
        },
        _ => false,
    }
}

proof fn lemma_last_segment(prefix: Seq<char>, name: Seq<char>)
    requires
        prefix.len() == 0 || prefix.last() == '/',
        forall|i: int| 0 <= i < name.len() ==> #[trigger] name[i] != '/',
    ensures
        crate::injection::spec_after_last_slash(prefix + name) == name,
    decreases name.len(),
{
    if name.len() == 0 {
        assert(prefix + name =~= prefix);
        if prefix.len() > 0 {
            assert(prefix.drop_last() + seq!['/'] =~= prefix);
        }
    } else {
        lemma_last_segment(prefix, name.drop_last());
        assert((prefix + name).drop_last() =~= prefix + name.drop_last());
        assert(name.drop_last().push(name.last()) =~= name);
    }
}

/// Every outcome of a download is consistent (see [`result_well_formed`]), whether it is
/// the stop a store reply leads to or the success of the package that reply describes;
/// and a success names, in the download directory, the file whose name is the safe
/// canonical name (see [`crate::naming::canonical_ipa_filename`]) of the reply's display
/// name (else `Unknown`), version (else `1.0`) and bundle id (when not empty).
pub proof fn lemma_download_outcome(
    stage: DownloadStage,
    auto_purchase: bool,
    reply: Seq<(String, JsonNode)>,
    step: DownloadStep,
    package: Result<DownloadPackage, String>,
    download_dir: Seq<char>,
    r: DownloadResult,
)
    requires
        spec_next_step(stage, auto_purchase, reply, step),
        spec_package_name_fits(reply),
        ends_download(step, reply, package, download_dir, r),
    ensures
        result_well_formed(r),
        r.ok ==> (song_metadata(reply) matches Some(m) && {
            let name = spec_sanitize_ipa_filename(package_raw_name(m));
            &&& opt_text(r.file) == Some(crate::naming::path_join(download_dir, name))
            &&& crate::injection::spec_after_last_slash(crate::naming::path_join(download_dir, name)) == name
        }),
{
    if r.ok {
        if let Ok(p) = package {
            let m = song_metadata(reply)->Some_0;
            let name = spec_sanitize_ipa_filename(package_raw_name(m));
            crate::naming::lemma_canonical_name_shape(
                text_or(m, "bundleDisplayName"@, "Unknown"@),
                text_or(m, "bundleShortVersionString"@, "1.0"@),
                if text_or_empty(m, "bundleId"@).len() == 0 { None } else { Some(text_or_empty(m, "bundleId"@)) },
            );
            assert forall|i: int| 0 <= i < name.len() implies #[trigger] name[i] != '/' by {
                assert(crate::naming::keeps_in_ipa_name(name[i]));
            }
            reveal_strlit("/");
            if download_dir.len() == 0 || download_dir.last() == '/' {
                lemma_last_segment(download_dir, name);
            } else {
                let pre = download_dir + "/"@;
                assert(pre.last() == '/');
                assert(crate::naming::path_join(download_dir, name) == pre + name);
                lemma_last_segment(pre, name);
            }
        }
    }
}

} // verus!
