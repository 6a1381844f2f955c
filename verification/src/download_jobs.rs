//! The decisions of the download service around a download job: whether a direct
//! download may start, the hints a request gives, the record kept for a finished download,
//! the answer that reuses an earlier download, and what a client is told about a job.
use vstd::prelude::*;
use crate::apple::{get_license_error_message, lower_text, members_value, spec_license_error, to_lower};
use crate::delivery::{derive_delivery_decision, is_placeholder_bundle_id, spec_delivery, spec_is_placeholder_bundle_id};
use crate::download_flow::reply_ok;
use crate::inspection::IpaInspection;
use crate::json::{json_text, members_get_from, JsonNode};
use crate::links::{
    build_base_url, build_job_install_url, build_record_download_url, build_record_install_url, spec_install_link,
    spec_job_manifest_url, spec_record_download_url, spec_record_install_url,
};
use crate::metadata::{or_else, IpaMetadata};
use crate::models::{DeliveryDecision, ExistingDownloadResponse, StartDownloadDirectRequest};
use crate::ota::{spec_url_encode, url_encode};
use crate::records::{DownloadMetadata, DownloadRecord};
use crate::jobs::JobState;
use crate::text::{chars_of, contains_run, opt_text, push_str, seq_contains_run, string_from_chars};
use vstd::utf8::encode_utf8;

verus! {

/// What the first store reply of a direct download allows.
#[derive(Debug, Clone)]
pub enum QueryOutcome {
    /// The app can be downloaded.
    Ready,
    /// The app must be bought first; carries the message for the user.
    NeedsPurchase(String),
    /// The download cannot start; carries the store's message.
    Failed(String),
}

/// The message of a failed reply: the first member present among `customerMessage`,
/// `failureType` and `message`, when it is a string, else `下载失败`.
pub open spec fn query_error_text(reply: Seq<(String, JsonNode)>) -> Seq<char> {
    let first = match members_get_from(reply, "customerMessage"@, 0) {
        Some(v) => Some(v),
        None => match members_get_from(reply, "failureType"@, 0) {
            Some(v) => Some(v),
            None => members_get_from(reply, "message"@, 0),
        },
    };
    match json_text(first) {
        Some(t) => t,
        None => "下载失败"@,
    }
}

/// Whether a failure message asks for a purchase: lower-cased it contains `license` or
/// `not found`, or it contains `未购买` or `未找到`.
pub open spec fn asks_for_purchase(message: Seq<char>) -> bool {
    seq_contains_run(lower_text(message), "license"@) || seq_contains_run(lower_text(message), "not found"@)
        || seq_contains_run(message, "未购买"@) || seq_contains_run(message, "未找到"@)
}

/// What the first store reply of a direct download allows: a successful reply is ready;
/// a failure that asks for a purchase needs one (with the licence message, see
/// [`spec_license_error`]); any other fails with its message (see [`query_error_text`]).
pub open spec fn spec_query_outcome(reply: Seq<(String, JsonNode)>, r: QueryOutcome) -> bool {
    if reply_ok(reply) {
        r is Ready
    } else if asks_for_purchase(query_error_text(reply)) {
        r matches QueryOutcome::NeedsPurchase(m) && m@ == spec_license_error(reply)
    } else {
        r matches QueryOutcome::Failed(m) && m@ == query_error_text(reply)
    }
}

/// What the first store reply of a direct download allows (see [`spec_query_outcome`]).
pub fn direct_query_outcome(reply: &Vec<(String, JsonNode)>) -> (r: QueryOutcome)
    ensures
        spec_query_outcome(reply@, r),
{
    let success = "success".to_owned();
    let ok = match members_value(reply, "_state") {
        Some(JsonNode::String(s)) => *s == success,
        _ => false,
    };
    if ok {
        return QueryOutcome::Ready;
    }
    let first = match members_value(reply, "customerMessage") {
        Some(v) => Some(v),
        None => match members_value(reply, "failureType") {
            Some(v) => Some(v),
            None => members_value(reply, "message"),
        },
    };
    let message = match first {
        Some(JsonNode::String(s)) => s.clone(),
        _ => "下载失败".to_owned(),
    };
    proof {
        reveal_strlit("下载失败");
    }
    let lowered = chars_of(to_lower(message.as_str()).as_str());
    let plain = chars_of(message.as_str());
    let asks = contains_run(lowered.as_slice(), chars_of("license").as_slice())
        || contains_run(lowered.as_slice(), chars_of("not found").as_slice())
        || contains_run(plain.as_slice(), chars_of("未购买").as_slice())
        || contains_run(plain.as_slice(), chars_of("未找到").as_slice());
    if asks {
        QueryOutcome::NeedsPurchase(get_license_error_message(reply))
    } else {
        QueryOutcome::Failed(message)
    }
}

/// What a download request says of the app, kept only when it says something: a name,
/// version, artwork and artist that are not empty, and a bundle id that is not a
/// placeholder.
#[derive(Debug, Clone)]
pub struct DownloadHints {
    pub app_name: Option<String>,
    pub bundle_id: Option<String>,
    pub app_version: Option<String>,
    pub artwork_url: Option<String>,
    pub artist_name: Option<String>,
}

/// The text when it is not empty.
pub open spec fn non_empty(value: Option<Seq<char>>) -> Option<Seq<char>> {
    match value {
        Some(t) => if t.len() > 0 { Some(t) } else { None },
        None => None,
    }
}

fn keep_non_empty(value: &Option<String>) -> (r: Option<String>)
    ensures
        opt_text(r) == non_empty(opt_text(*value)),
{
    match value {
        Some(t) => if chars_of(t.as_str()).len() > 0 { Some(t.clone()) } else { None },
        None => None,
    }
}

/// The hints of a download request (see [`DownloadHints`]).
pub fn download_hints(req: &StartDownloadDirectRequest) -> (r: DownloadHints)
    ensures
        opt_text(r.app_name) == non_empty(opt_text(req.appName)),
        opt_text(r.bundle_id) == crate::links::real_bundle_id(opt_text(req.bundleId)),
        opt_text(r.app_version) == non_empty(opt_text(req.appVersion)),
        opt_text(r.artwork_url) == non_empty(opt_text(req.artworkUrl)),
        opt_text(r.artist_name) == non_empty(opt_text(req.artistName)),
{
    let bundle_id = match &req.bundleId {
        Some(b) => if is_placeholder_bundle_id(b.as_str()) { None } else { Some(b.clone()) },
        None => None,
    };
    DownloadHints {
        app_name: keep_non_empty(&req.appName),
        bundle_id,
        app_version: keep_non_empty(&req.appVersion),
        artwork_url: keep_non_empty(&req.artworkUrl),
        artist_name: keep_non_empty(&req.artistName),
    }
}

/// The version a download is filed under: the hinted version, else the requested version
/// id, else `latest`.
pub open spec fn spec_version_key(app_version: Option<Seq<char>>, app_ver_id: Option<Seq<char>>) -> Seq<char> {
    match or_else(app_version, app_ver_id) {
        Some(v) => v,
        None => "latest"@,
    }
}

/// The version a download is filed under (see [`spec_version_key`]).
pub fn app_version_key(hints: &DownloadHints, app_ver_id: Option<&str>) -> (r: String)
    ensures
        r@ == spec_version_key(opt_text(hints.app_version), match app_ver_id {
            Some(v) => Some(v@),
            None => None,
        }),
{
    match &hints.app_version {
        Some(v) => v.clone(),
        None => match app_ver_id {
            Some(v) => v.to_owned(),
            None => "latest".to_owned(),
        },
    }
}

/// The text of a download's metadata field when it is not empty.
pub open spec fn meta_field(meta: Option<DownloadMetadata>, which: int) -> Option<Seq<char>> {
    match meta {
        Some(m) => non_empty(Some(
            if which == 0 {
                m.bundle_display_name@
            } else if which == 1 {
                m.bundle_id@
            } else if which == 2 {
                m.bundle_short_version_string@
            } else if which == 3 {
                m.artwork_url@
            } else {
                m.artist_name@
            },
        )),
        None => None,
    }
}

/// The text of an IPA's metadata field.
pub open spec fn ipa_field(ipa: Option<IpaMetadata>, which: int) -> Option<Seq<char>> {
    match ipa {
        Some(i) => opt_text(
            if which == 0 {
                i.item_name
            } else if which == 1 {
                i.bundle_display_name
            } else if which == 2 {
                i.bundle_id
            } else if which == 3 {
                i.icon_url
            } else {
                i.artist_name
            },
        ),
        None => None,
    }
}

/// The name a finished download is recorded under: the download's display name, else the
/// IPA's item name, else the hinted name, else the IPA's display name, else the file's
/// stem (else the app id).
pub open spec fn spec_recorded_name(
    meta: Option<DownloadMetadata>,
    ipa: Option<IpaMetadata>,
    hint: Option<Seq<char>>,
    file_stem: Option<Seq<char>>,
    app_id: Seq<char>,
) -> Seq<char> {
    match or_else(or_else(or_else(meta_field(meta, 0), ipa_field(ipa, 0)), hint), ipa_field(ipa, 1)) {
        Some(n) => n,
        None => match file_stem {
            Some(s) => s,
            None => app_id,
        },
    }
}

fn meta_text(meta: Option<&DownloadMetadata>, which: u8) -> (r: Option<String>)
    requires
        which < 5,
    ensures
        opt_text(r) == meta_field(match meta {
            Some(m) => Some(*m),
            None => None,
        }, which as int),
{
    match meta {
        Some(m) => {
            let t = if which == 0 {
                &m.bundle_display_name
            } else if which == 1 {
                &m.bundle_id
            } else if which == 2 {
                &m.bundle_short_version_string
            } else if which == 3 {
                &m.artwork_url
            } else {
                &m.artist_name
            };
            if chars_of(t.as_str()).len() > 0 { Some(t.clone()) } else { None }
        },
        None => None,
    }
}

fn ipa_text(ipa: Option<&IpaMetadata>, which: u8) -> (r: Option<String>)
    requires
        which < 5,
    ensures
        opt_text(r) == ipa_field(match ipa {
            Some(i) => Some(*i),
            None => None,
        }, which as int),
{
    match ipa {
        Some(i) => {
            let t = if which == 0 {
                &i.item_name
            } else if which == 1 {
                &i.bundle_display_name
            } else if which == 2 {
                &i.bundle_id
            } else if which == 3 {
                &i.icon_url
            } else {
                &i.artist_name
            };
            match t {
                Some(v) => Some(v.clone()),
                None => None,
            }
        },
        None => None,
    }
}

fn first_set(a: Option<String>, b: Option<String>) -> (r: Option<String>)
    ensures
        opt_text(r) == or_else(opt_text(a), opt_text(b)),
{
    match a {
        Some(x) => Some(x),
        None => b,
    }
}

fn text_opt(value: Option<&str>) -> (r: Option<String>)
    ensures
        opt_text(r) == match value {
            Some(v) => Some(v@),
            None => None,
        },
{
    match value {
        Some(v) => Some(v.to_owned()),
        None => None,
    }
}

/// The optional text as a character sequence.
pub open spec fn opt_view(value: Option<&str>) -> Option<Seq<char>> {
    match value {
        Some(v) => Some(v@),
        None => None,
    }
}

/// The record kept for a finished download: its job, app and account; its name (see
/// [`spec_recorded_name`]); its bundle id, version, artwork and artist taken from the
/// download's metadata when set, else from the IPA (the version: else the hinted version,
/// else the requested version id), else from the hints; the file, its size and the date;
/// status `completed` at 100%; and the delivery that the inspection of the file gives
/// (see [`spec_delivery`]) with the inspection's JSON text.
pub fn completed_download_record(
    job_id: &str,
    app_id: &str,
    meta: Option<&DownloadMetadata>,
    ipa_meta: Option<&IpaMetadata>,
    hints: &DownloadHints,
    app_ver_id: Option<&str>,
    file_stem: Option<&str>,
    account_email: &str,
    account_region: Option<String>,
    download_date: String,
    file_size: Option<i64>,
    file_path: &str,
    inspection: Option<&IpaInspection>,
    inspection_json: Option<String>,
) -> (r: DownloadRecord)
    ensures
        ({
            let m = match meta {
                Some(x) => Some(*x),
                None => None,
            };
            let i = match ipa_meta {
                Some(x) => Some(*x),
                None => None,
            };
            let d = spec_delivery(match inspection {
                Some(x) => Some(*x),
                None => None,
            }, true);
            &&& r.id is None
            &&& opt_text(r.job_id) == Some(job_id@)
            &&& r.app_name@ == spec_recorded_name(m, i, opt_text(hints.app_name), opt_view(file_stem), app_id@)
            &&& r.app_id@ == app_id@
            &&& opt_text(r.bundle_id) == or_else(or_else(meta_field(m, 1), ipa_field(i, 2)), opt_text(hints.bundle_id))
            &&& opt_text(r.version) == or_else(or_else(meta_field(m, 2), opt_text(hints.app_version)), opt_view(app_ver_id))
            &&& r.account_email@ == account_email@
            &&& r.account_region == account_region
            &&& r.download_date == Some(download_date)
            &&& r.status@ == "completed"@
            &&& r.file_size == file_size
            &&& opt_text(r.file_path) == Some(file_path@)
            &&& r.install_url is None
            &&& opt_text(r.artwork_url) == or_else(or_else(meta_field(m, 3), ipa_field(i, 3)), opt_text(hints.artwork_url))
            &&& opt_text(r.artist_name) == or_else(or_else(meta_field(m, 4), ipa_field(i, 4)), opt_text(hints.artist_name))
            &&& r.progress == Some(100i64)
            &&& r.error is None
            &&& opt_text(r.package_kind) == Some(d.0)
            &&& r.ota_installable == Some(d.1)
            &&& opt_text(r.install_method) == Some(d.2)
            &&& r.inspection_json == inspection_json
            &&& r.created_at is None
        }),
{
    let decision = derive_delivery_decision(inspection, true);
    let stem = match file_stem {
        Some(s) => s.to_owned(),
        None => app_id.to_owned(),
    };
    let named = first_set(first_set(first_set(meta_text(meta, 0), ipa_text(ipa_meta, 0)), hints.app_name.clone()), ipa_text(ipa_meta, 1));
    let app_name = match named {
        Some(n) => n,
        None => stem,
    };
    let hinted_bundle = match &hints.bundle_id {
        Some(b) => Some(b.clone()),
        None => None,
    };
    let hinted_version = match &hints.app_version {
        Some(v) => Some(v.clone()),
        None => None,
    };
    let hinted_artwork = match &hints.artwork_url {
        Some(v) => Some(v.clone()),
        None => None,
    };
    let hinted_artist = match &hints.artist_name {
        Some(v) => Some(v.clone()),
        None => None,
    };
    DownloadRecord {
        id: None,
        job_id: Some(job_id.to_owned()),
        app_name,
        app_id: app_id.to_owned(),
        bundle_id: first_set(first_set(meta_text(meta, 1), ipa_text(ipa_meta, 2)), hinted_bundle),
        version: first_set(first_set(meta_text(meta, 2), hinted_version), text_opt(app_ver_id)),
        account_email: account_email.to_owned(),
        account_region,
        download_date: Some(download_date),
        status: "completed".to_owned(),
        file_size,
        file_path: Some(file_path.to_owned()),
        install_url: None,
        artwork_url: first_set(first_set(meta_text(meta, 3), ipa_text(ipa_meta, 3)), hinted_artwork),
        artist_name: first_set(first_set(meta_text(meta, 4), ipa_text(ipa_meta, 4)), hinted_artist),
        progress: Some(100),
        error: None,
        package_kind: Some(decision.package_kind),
        ota_installable: Some(decision.ota_installable),
        install_method: Some(decision.install_method),
        inspection_json,
        created_at: None,
    }
}

fn copy_opt(value: &Option<String>) -> (r: Option<String>)
    ensures
        opt_text(r) == opt_text(*value),
{
    match value {
        Some(v) => Some(v.clone()),
        None => None,
    }
}

/// The inspection given by reference, as a value.
pub open spec fn opt_inspection(inspection: Option<&IpaInspection>) -> Option<IpaInspection> {
    match inspection {
        Some(i) => Some(*i),
        None => None,
    }
}

/// The answer that reuses an earlier download of the same app, version and account whose
/// file still exists: the record's job (else the task's slug), id, app, version (else the
/// version key), name, account, file, size (else the size on disk), artwork, artist and
/// bundle id; its download link when it has an id (else empty); its install link (see
/// [`spec_record_install_url`]); and the delivery its inspection gives.
pub fn reused_download_response(
    base_url: &str,
    record: &DownloadRecord,
    file_path: &str,
    inspection: Option<&IpaInspection>,
    bundle_id_in_ipa: Option<String>,
    task_slug: &str,
    version_key: &str,
    task_dir: &str,
    size_on_disk: Option<i64>,
) -> (r: ExistingDownloadResponse)
    ensures
        r.job_id@ == match opt_text(record.job_id) {
            Some(j) => j,
            None => task_slug@,
        },
        r.record_id == record.id,
        r.app_id@ == record.app_id@,
        r.version@ == match opt_text(record.version) {
            Some(v) => v,
            None => version_key@,
        },
        r.app_name@ == record.app_name@,
        r.account_email@ == record.account_email@,
        r.file_path@ == file_path@,
        r.file_size == match record.file_size {
            Some(n) => Some(n),
            None => size_on_disk,
        },
        r.download_url@ == match record.id {
            Some(id) => spec_record_download_url(base_url@, id as int),
            None => Seq::empty(),
        },
        opt_text(r.install_url) == match record.id {
            Some(id) => spec_record_install_url(base_url@, *record, id as int, opt_inspection(inspection), true, opt_text(bundle_id_in_ipa)),
            None => None,
        },
        (r.package_kind@, r.ota_installable, r.install_method@) == spec_delivery(opt_inspection(inspection), true),
        opt_text(r.artwork_url) == opt_text(record.artwork_url),
        opt_text(r.artist_name) == opt_text(record.artist_name),
        opt_text(r.bundle_id) == opt_text(record.bundle_id),
        r.reused,
        r.task_dir@ == task_dir@,
{
    let decision = derive_delivery_decision(inspection, true);
    let download_url = match record.id {
        Some(id) => build_record_download_url(base_url, id),
        None => String::new(),
    };
    let install_url = match record.id {
        Some(id) => build_record_install_url(base_url, record, id, inspection, true, bundle_id_in_ipa),
        None => None,
    };
    ExistingDownloadResponse {
        job_id: match &record.job_id {
            Some(j) => j.clone(),
            None => task_slug.to_owned(),
        },
        record_id: record.id,
        app_id: record.app_id.clone(),
        version: match &record.version {
            Some(v) => v.clone(),
            None => version_key.to_owned(),
        },
        app_name: record.app_name.clone(),
        account_email: record.account_email.clone(),
        file_path: file_path.to_owned(),
        file_size: match record.file_size {
            Some(n) => Some(n),
            None => size_on_disk,
        },
        download_url,
        install_url,
        package_kind: decision.package_kind,
        ota_installable: decision.ota_installable,
        install_method: decision.install_method,
        artwork_url: copy_opt(&record.artwork_url),
        artist_name: copy_opt(&record.artist_name),
        bundle_id: copy_opt(&record.bundle_id),
        reused: true,
        task_dir: task_dir.to_owned(),
    }
}

/// Whether a record already holds a delivery decision and the JSON text of its inspection.
pub open spec fn spec_delivery_stored(record: DownloadRecord, decision: (Seq<char>, bool, Seq<char>), inspection_json: Option<Seq<char>>) -> bool {
    opt_text(record.package_kind) == Some(decision.0) && record.ota_installable == Some(decision.1)
        && opt_text(record.install_method) == Some(decision.2) && opt_text(record.inspection_json) == inspection_json
}

fn same_opt_text(a: &Option<String>, b: &Option<String>) -> (r: bool)
    ensures
        r == (opt_text(*a) == opt_text(*b)),
{
    match (a, b) {
        (Some(x), Some(y)) => *x == *y,
        (None, None) => true,
        _ => false,
    }
}

/// Whether a record must be updated with the delivery its inspection gives: it has an id
/// and does not hold that delivery and inspection text already (see
/// [`spec_delivery_stored`]).
pub fn record_delivery_outdated(record: &DownloadRecord, inspection: Option<&IpaInspection>, inspection_json: &Option<String>, file_exists: bool) -> (r: bool)
    ensures
        r == (record.id is Some && !spec_delivery_stored(*record, spec_delivery(opt_inspection(inspection), file_exists), opt_text(*inspection_json))),
{
    if record.id.is_none() {
        return false;
    }
    let decision = derive_delivery_decision(inspection, file_exists);
    let kind = Some(decision.package_kind);
    let method = Some(decision.install_method);
    let stored = same_opt_text(&record.package_kind, &kind) && match record.ota_installable {
        Some(b) => b == decision.ota_installable,
        None => false,
    } && same_opt_text(&record.install_method, &method) && same_opt_text(&record.inspection_json, inspection_json);
    !stored
}

/// What a client is told about a download job.
#[derive(Debug, Clone)]
pub struct JobInfo {
    pub job_id: String,
    pub status: String,
    pub stage: String,
    pub progress: i64,
    pub download_url: Option<String>,
    pub install_url: Option<String>,
    pub package_kind: String,
    pub ota_installable: bool,
    pub install_method: String,
    /// The inspection the delivery was derived from.
    pub inspection: Option<IpaInspection>,
    pub error: Option<String>,
    pub metadata: Option<DownloadMetadata>,
    pub file_path: Option<String>,
}

/// The message for a recorded job whose file is gone.
pub open spec fn lost_file_message() -> Seq<char> {
    "任务记录存在，但安装包文件已丢失"@
}

/// The download link of a job that has no stored record.
pub open spec fn spec_job_file_url(base_url: Seq<char>, job_id: Seq<char>) -> Seq<char> {
    base_url + "/api/public/download-file?jobId="@ + spec_url_encode(encode_utf8(job_id))
}

pub(crate) fn job_file_url(base_url: &str, job_id: &str) -> (r: String)
    ensures
        r@ == spec_job_file_url(base_url@, job_id@),
{
    let mut buf: Vec<char> = Vec::new();
    push_str(&mut buf, base_url);
    push_str(&mut buf, "/api/public/download-file?jobId=");
    push_str(&mut buf, url_encode(job_id).as_str());
    string_from_chars(buf.as_slice())
}

/// What [`persisted_job_info`] tells of a job known only from its stored record (see
/// there).
pub open spec fn persisted_info_holds(
    r: JobInfo,
    job_id: Seq<char>,
    record: DownloadRecord,
    inspection: Option<IpaInspection>,
    file_exists: bool,
    base_url: Seq<char>,
    bundle_id_in_ipa: Option<Seq<char>>,
) -> bool {
    &&& r.job_id@ == job_id
    &&& r.status@ == (if file_exists { "ready"@ } else { "failed"@ })
    &&& r.stage@ == (if file_exists { "done"@ } else { "missing-file"@ })
    &&& r.progress == (if file_exists { 100 } else {
        match record.progress {
            Some(p) => p as int,
            None => 0,
        }
    })
    &&& opt_text(r.download_url) == match record.id {
        Some(id) => if file_exists { Some(spec_record_download_url(base_url, id as int)) } else { None },
        None => None,
    }
    &&& opt_text(r.install_url) == match record.id {
        Some(id) => spec_record_install_url(base_url, record, id as int, inspection, file_exists, bundle_id_in_ipa),
        None => None,
    }
    &&& (r.package_kind@, r.ota_installable, r.install_method@) == spec_delivery(inspection, file_exists)
    &&& r.inspection == inspection
    &&& opt_text(r.error) == (if file_exists { None } else { Some(lost_file_message()) })
    &&& r.metadata is None
    &&& opt_text(r.file_path) == opt_text(record.file_path)
}

/// What a client is told about a job that is only known from its stored record: `ready`
/// and `done` at 100% when its file exists, else `failed` and `missing-file` at the
/// record's progress (else 0) with [`lost_file_message`]; the download link when the file
/// exists and the record has an id; the install link (see [`spec_record_install_url`]);
/// and the delivery its inspection gives.
pub fn persisted_job_info(
    job_id: &str,
    record: &DownloadRecord,
    inspection: Option<IpaInspection>,
    file_exists: bool,
    base_url: &str,
    bundle_id_in_ipa: Option<String>,
) -> (r: JobInfo)
    ensures
        persisted_info_holds(r, job_id@, *record, inspection, file_exists, base_url@, opt_text(bundle_id_in_ipa)),
{
    let decision = derive_delivery_decision(inspection.as_ref(), file_exists);
    let install_url = match record.id {
        Some(id) => build_record_install_url(base_url, record, id, inspection.as_ref(), file_exists, bundle_id_in_ipa),
        None => None,
    };
    let download_url = match record.id {
        Some(id) => if file_exists { Some(build_record_download_url(base_url, id)) } else { None },
        None => None,
    };
    let progress: i64 = if file_exists {
        100
    } else {
        match record.progress {
            Some(p) => p,
            None => 0,
        }
    };
    JobInfo {
        job_id: job_id.to_owned(),
        status: if file_exists { "ready".to_owned() } else { "failed".to_owned() },
        stage: if file_exists { "done".to_owned() } else { "missing-file".to_owned() },
        progress,
        download_url,
        install_url,
        package_kind: decision.package_kind,
        ota_installable: decision.ota_installable,
        install_method: decision.install_method,
        inspection,
        error: if file_exists { None } else { Some("任务记录存在，但安装包文件已丢失".to_owned()) },
        metadata: None,
        file_path: copy_opt(&record.file_path),
    }
}

fn copy_metadata(m: &Option<DownloadMetadata>) -> (r: Option<DownloadMetadata>)
    ensures
        match *m {
            Some(x) => r matches Some(y) && y.bundle_display_name@ == x.bundle_display_name@
                && y.bundle_short_version_string@ == x.bundle_short_version_string@ && y.bundle_id@ == x.bundle_id@
                && y.artwork_url@ == x.artwork_url@ && y.artist_name@ == x.artist_name@,
            None => r is None,
        },
{
    match m {
        Some(x) => Some(DownloadMetadata {
            bundle_display_name: x.bundle_display_name.clone(),
            bundle_short_version_string: x.bundle_short_version_string.clone(),
            bundle_id: x.bundle_id.clone(),
            artwork_url: x.artwork_url.clone(),
            artist_name: x.artist_name.clone(),
        }),
        None => None,
    }
}

/// What [`live_job_info`] tells of a running or finished job (see there).
pub open spec fn live_info_holds(
    r: JobInfo,
    job_id: Seq<char>,
    snapshot: JobState,
    record: Option<DownloadRecord>,
    record_inspection: Option<IpaInspection>,
    snapshot_inspection: Option<IpaInspection>,
    snapshot_file_exists: bool,
    record_file_exists: bool,
    base_url: Seq<char>,
    bundle_id_in_ipa: Option<Seq<char>>,
) -> bool {
    let ready = snapshot.status@ == "ready"@;
    let rec = if ready {
        record
    } else {
        None
    };
    let used = if rec is Some { record_inspection } else { snapshot_inspection };
    let d = spec_delivery(used, snapshot_file_exists);
    &&& r.job_id@ == snapshot.job_id@
    &&& r.status@ == snapshot.status@
    &&& r.stage@ == snapshot.stage@
    &&& r.progress == snapshot.progress as int
    &&& (r.package_kind@, r.ota_installable, r.install_method@) == d
    &&& r.inspection == used
    &&& opt_text(r.install_url) == if !ready {
        opt_text(snapshot.install_url)
    } else if !d.1 {
        None
    } else {
        match rec {
            Some(x) => match x.id {
                Some(id) => spec_record_install_url(base_url, x, id as int, record_inspection, record_file_exists, bundle_id_in_ipa),
                None => None,
            },
            None => if snapshot.file_path is Some {
                Some(spec_install_link(spec_job_manifest_url(base_url, job_id)))
            } else {
                None
            },
        }
    }
    &&& opt_text(r.download_url) == if !ready {
        None
    } else {
        match rec {
            Some(x) => match x.id {
                Some(id) => Some(spec_record_download_url(base_url, id as int)),
                None => Some(spec_job_file_url(base_url, job_id)),
            },
            None => Some(spec_job_file_url(base_url, job_id)),
        }
    }
    &&& opt_text(r.error) == opt_text(snapshot.error)
    &&& opt_text(r.file_path) == opt_text(snapshot.file_path)
    &&& match snapshot.metadata {
        Some(x) => r.metadata matches Some(y) && y.bundle_display_name@ == x.bundle_display_name@
            && y.bundle_short_version_string@ == x.bundle_short_version_string@ && y.bundle_id@ == x.bundle_id@
            && y.artwork_url@ == x.artwork_url@ && y.artist_name@ == x.artist_name@,
        None => r.metadata is None,
    }
}

/// What a client is told about a running or finished job: the job's own id, status,
/// stage, progress, error, metadata and file.  A ready job is described by its stored
/// record when there is one (a record is not consulted otherwise): the delivery comes
/// from the record's inspection (else from the inspection of the job's file); the install
/// link is the record's (see [`spec_record_install_url`]), else the job's own when it has
/// a file, and none when the delivery is not installable over the air; the download link
/// is the record's when it has an id, else the job's file link (see
/// [`spec_job_file_url`]).  A job that is not ready keeps its own install link and has no
/// download link.
pub fn live_job_info(
    job_id: &str,
    snapshot: &JobState,
    record: Option<&DownloadRecord>,
    record_inspection: Option<IpaInspection>,
    snapshot_inspection: Option<IpaInspection>,
    snapshot_file_exists: bool,
    record_file_exists: bool,
    base_url: &str,
    bundle_id_in_ipa: Option<String>,
) -> (r: JobInfo)
    ensures
        live_info_holds(
            r,
            job_id@,
            *snapshot,
            match record {
                Some(x) => Some(*x),
                None => None,
            },
            record_inspection,
            snapshot_inspection,
            snapshot_file_exists,
            record_file_exists,
            base_url@,
            opt_text(bundle_id_in_ipa),
        ),
{
    let ready = crate::apple::same_text(snapshot.status.as_str(), "ready");
    let rec = if ready { record } else { None };
    let used = if rec.is_some() { record_inspection } else { snapshot_inspection };
    let decision = derive_delivery_decision(used.as_ref(), snapshot_file_exists);
    let install_url = if !ready {
        copy_opt(&snapshot.install_url)
    } else if !decision.ota_installable {
        None
    } else {
        match rec {
            Some(x) => match x.id {
                Some(id) => build_record_install_url(base_url, x, id, used.as_ref(), record_file_exists, bundle_id_in_ipa),
                None => None,
            },
            None => if snapshot.file_path.is_some() {
                Some(build_job_install_url(base_url, job_id))
            } else {
                None
            },
        }
    };
    let download_url = if !ready {
        None
    } else {
        match rec {
            Some(x) => match x.id {
                Some(id) => Some(build_record_download_url(base_url, id)),
                None => Some(job_file_url(base_url, job_id)),
            },
            None => Some(job_file_url(base_url, job_id)),
        }
    };
    JobInfo {
        job_id: snapshot.job_id.clone(),
        status: snapshot.status.clone(),
        stage: snapshot.stage.clone(),
        progress: snapshot.progress as i64,
        download_url,
        install_url,
        package_kind: decision.package_kind,
        ota_installable: decision.ota_installable,
        install_method: decision.install_method,
        inspection: used,
        error: copy_opt(&snapshot.error),
        metadata: copy_metadata(&snapshot.metadata),
        file_path: copy_opt(&snapshot.file_path),
    }
}

/// The answer to a request for a job's information.
#[derive(Debug, Clone)]
pub enum JobInfoReply {
    /// The job, live or from its stored record.
    Found(JobInfo),
    /// Neither a live job nor a stored record has this id.
    NotFound(String),
    /// The stored record could not be read.
    LookupFailed(String),
}

impl JobInfoReply {
    /// The HTTP status the answer is sent with: 200, 404 when the job is unknown, 500 when
    /// its record could not be read.
    pub fn http_status(&self) -> (r: u16)
        ensures
            r == match *self {
                JobInfoReply::Found(_) => 200u16,
                JobInfoReply::NotFound(_) => 404u16,
                JobInfoReply::LookupFailed(_) => 500u16,
            },
    {
        match self {
            JobInfoReply::Found(_) => 200,
            JobInfoReply::NotFound(_) => 404,
            JobInfoReply::LookupFailed(_) => 500,
        }
    }
}

/// The message for a job id that is neither running nor recorded.
pub open spec fn job_not_found_message() -> Seq<char> {
    "任务不存在"@
}

/// The message for a record lookup that failed with `error`.
pub open spec fn record_lookup_failed_message(error: Seq<char>) -> Seq<char> {
    "读取任务记录失败："@ + error
}

/// The record a lookup found, if any.
pub open spec fn found_record(lookup: Result<Option<DownloadRecord>, String>) -> Option<DownloadRecord> {
    match lookup {
        Ok(Some(x)) => Some(x),
        _ => None,
    }
}

/// Answers a request for a job's information.  A live job is described by
/// [`live_job_info`] (with the record the lookup found, if any); a job that is not live by
/// [`persisted_job_info`] when the lookup by its id found a stored record; otherwise the
/// answer is [`job_not_found_message`] when the lookup found nothing, and
/// [`record_lookup_failed_message`] when it failed.
pub fn job_info_reply(
    job_id: &str,
    snapshot: Option<&JobState>,
    record_lookup: &Result<Option<DownloadRecord>, String>,
    record_inspection: Option<IpaInspection>,
    snapshot_inspection: Option<IpaInspection>,
    snapshot_file_exists: bool,
    record_file_exists: bool,
    base_url: &str,
    bundle_id_in_ipa: Option<String>,
) -> (r: JobInfoReply)
    ensures
        match snapshot {
            Some(s) => r matches JobInfoReply::Found(info) && live_info_holds(
                info,
                job_id@,
                *s,
                found_record(*record_lookup),
                record_inspection,
                snapshot_inspection,
                snapshot_file_exists,
                record_file_exists,
                base_url@,
                opt_text(bundle_id_in_ipa),
            ),
            None => match *record_lookup {
                Ok(Some(rec)) => r matches JobInfoReply::Found(info) && persisted_info_holds(
                    info,
                    job_id@,
                    rec,
                    record_inspection,
                    record_file_exists,
                    base_url@,
                    opt_text(bundle_id_in_ipa),
                ),
                Ok(None) => r matches JobInfoReply::NotFound(m) && m@ == job_not_found_message(),
                Err(e) => r matches JobInfoReply::LookupFailed(m) && m@ == record_lookup_failed_message(e@),
            },
        },
{
    match snapshot {
        Some(s) => {
            let record = match record_lookup {
                Ok(Some(rec)) => Some(rec),
                _ => None,
            };
            JobInfoReply::Found(
                live_job_info(
                    job_id,
                    s,
                    record,
                    record_inspection,
                    snapshot_inspection,
                    snapshot_file_exists,
                    record_file_exists,
                    base_url,
                    bundle_id_in_ipa,
                ),
            )
        },
        None => match record_lookup {
            Ok(Some(rec)) => JobInfoReply::Found(
                persisted_job_info(job_id, rec, record_inspection, record_file_exists, base_url, bundle_id_in_ipa),
            ),
            Ok(None) => JobInfoReply::NotFound("任务不存在".to_owned()),
            Err(e) => {
                let mut buf: Vec<char> = Vec::new();
                push_str(&mut buf, "读取任务记录失败：");
                push_str(&mut buf, e.as_str());
                JobInfoReply::LookupFailed(string_from_chars(buf.as_slice()))
            },
        },
    }
}

} // verus!
