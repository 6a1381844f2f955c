//! IPA files on the server as the API lists them: each file with what its download record
//! and its own metadata say of it, and how it is delivered.
use vstd::prelude::*;
use crate::delivery::{derive_delivery_decision, spec_delivery};
use crate::inspection::IpaInspection;
use crate::links::{build_record_download_url, build_record_install_url, spec_record_download_url, spec_record_install_url, trim_suffix};
use crate::metadata::IpaMetadata;
use crate::models::{DownloadRecordView, IpaArtifactView};
use crate::naming::trim_suffix_all;
use crate::records::DownloadRecord;
use crate::text::{chars_of, ends_with, opt_text, push_str, seq_ends_with, string_from_chars};

verus! {

/// A text of a record that says something: not empty and not `unknown`.
pub open spec fn known(t: Seq<char>) -> Option<Seq<char>> {
    if t.len() == 0 || t == "unknown"@ { None } else { Some(t) }
}

/// An optional text of a record, unless it is empty.
pub open spec fn present(t: Option<Seq<char>>) -> Option<Seq<char>> {
    match t {
        Some(v) => if v.len() == 0 { None } else { Some(v) },
        None => None,
    }
}

/// The first of a list of optional texts that is there.
pub open spec fn first_of(a: Option<Seq<char>>, b: Option<Seq<char>>) -> Option<Seq<char>> {
    match a {
        Some(x) => Some(x),
        None => b,
    }
}

/// A field of the IPA's own metadata, when there is metadata.
pub open spec fn meta_field(m: Option<IpaMetadata>, f: spec_fn(IpaMetadata) -> Option<String>) -> Option<Seq<char>> {
    match m {
        Some(x) => opt_text(f(x)),
        None => None,
    }
}

/// Whether a view is the one the API shows for an IPA file: the file's id, name, size,
/// path and date; the record's name, app id, bundle id, version, artwork and artist where
/// it says something, else the IPA's metadata (item name then display name, item id, bundle
/// id, short version then version, icon, artist), else the file name without `.ipa` and
/// `unknown`; the record's account, region and id; the download link
/// `<base>/api/ipa-files/<id>/download`; the delivery of the inspection; and the record's
/// install link when the file can be installed over the air.
pub open spec fn is_artifact_view(
    v: IpaArtifactView,
    id: Seq<char>,
    file_name: Seq<char>,
    file_size: u64,
    file_path: Seq<char>,
    modified_at: Option<Seq<char>>,
    record: Option<DownloadRecord>,
    meta: Option<IpaMetadata>,
    inspection: Option<IpaInspection>,
    base_url: Seq<char>,
    bundle_id_in_ipa: Option<Seq<char>>,
) -> bool {
    let delivery = spec_delivery(inspection, true);
    &&& v.id@ == id
    &&& v.file_name@ == file_name
    &&& v.file_size == file_size
    &&& v.file_path@ == file_path
    &&& opt_text(v.modified_at) == modified_at
    &&& v.app_name@ == match first_of(
        match record {
            Some(r) => known(r.app_name@),
            None => None,
        },
        first_of(meta_field(meta, |m: IpaMetadata| m.item_name), meta_field(meta, |m: IpaMetadata| m.bundle_display_name)),
    ) {
        Some(t) => t,
        None => trim_suffix_all(file_name, ".ipa"@),
    }
    &&& v.app_id@ == match first_of(
        match record {
            Some(r) => known(r.app_id@),
            None => None,
        },
        meta_field(meta, |m: IpaMetadata| m.item_id),
    ) {
        Some(t) => t,
        None => "unknown"@,
    }
    &&& opt_text(v.bundle_id) == first_of(
        match record {
            Some(r) => present(opt_text(r.bundle_id)),
            None => None,
        },
        meta_field(meta, |m: IpaMetadata| m.bundle_id),
    )
    &&& opt_text(v.version) == first_of(
        match record {
            Some(r) => present(opt_text(r.version)),
            None => None,
        },
        first_of(meta_field(meta, |m: IpaMetadata| m.bundle_short_version), meta_field(meta, |m: IpaMetadata| m.bundle_version)),
    )
    &&& opt_text(v.account_email) == match record {
        Some(r) => Some(r.account_email@),
        None => None,
    }
    &&& opt_text(v.account_region) == match record {
        Some(r) => opt_text(r.account_region),
        None => None,
    }
    &&& opt_text(v.artwork_url) == first_of(
        match record {
            Some(r) => present(opt_text(r.artwork_url)),
            None => None,
        },
        meta_field(meta, |m: IpaMetadata| m.icon_url),
    )
    &&& opt_text(v.artist_name) == first_of(
        match record {
            Some(r) => present(opt_text(r.artist_name)),
            None => None,
        },
        meta_field(meta, |m: IpaMetadata| m.artist_name),
    )
    &&& v.record_id == match record {
        Some(r) => r.id,
        None => None,
    }
    &&& v.download_url@ == base_url + "/api/ipa-files/"@ + id + "/download"@
    &&& opt_text(v.install_url) == (if delivery.1 {
        match record {
            Some(r) => match r.id {
                Some(rid) => spec_record_install_url(base_url, r, rid as int, inspection, true, bundle_id_in_ipa),
                None => None,
            },
            None => None,
        }
    } else {
        None
    })
    &&& (v.package_kind@, v.ota_installable, v.install_method@) == delivery
    &&& v.inspection == inspection
}

fn copy_opt(o: &Option<String>) -> (r: Option<String>)
    ensures
        opt_text(r) == opt_text(*o),
{
    match o {
        Some(v) => Some(v.clone()),
        None => None,
    }
}

fn known_text(t: &String) -> (r: Option<String>)
    ensures
        opt_text(r) == known(t@),
{
    if t.as_str().is_empty() || crate::apple::same_text(t.as_str(), "unknown") {
        None
    } else {
        Some(t.clone())
    }
}

fn present_text(t: &Option<String>) -> (r: Option<String>)
    ensures
        opt_text(r) == present(opt_text(*t)),
{
    match t {
        Some(v) => if v.as_str().is_empty() { None } else { Some(v.clone()) },
        None => None,
    }
}

fn or_else(a: Option<String>, b: Option<String>) -> (r: Option<String>)
    ensures
        opt_text(r) == first_of(opt_text(a), opt_text(b)),
{
    match a {
        Some(x) => Some(x),
        None => b,
    }
}

/// The view the API shows for an IPA file (see [`is_artifact_view`]); `record` is the
/// download record of the file, `meta` the IPA's own metadata, `inspection` that of the
/// record (else of the file), and `bundle_id_in_ipa` the bundle id the IPA declares.
pub fn ipa_artifact_view(
    id: &str,
    file_name: &str,
    file_size: u64,
    file_path: &str,
    modified_at: Option<String>,
    record: Option<&DownloadRecord>,
    meta: Option<&IpaMetadata>,
    inspection: Option<IpaInspection>,
    base_url: &str,
    bundle_id_in_ipa: Option<String>,
) -> (v: IpaArtifactView)
    ensures
        is_artifact_view(
            v,
            id@,
            file_name@,
            file_size,
            file_path@,
            opt_text(modified_at),
            match record {
                Some(r) => Some(*r),
                None => None,
            },
            match meta {
                Some(m) => Some(*m),
                None => None,
            },
            inspection,
            base_url@,
            opt_text(bundle_id_in_ipa),
        ),
{
    let fallback = string_from_chars(trim_suffix(chars_of(file_name).as_slice(), chars_of(".ipa").as_slice()).as_slice());
    let (item_name, display_name, item_id, meta_bundle, short_version, long_version, icon, artist) = match meta {
        Some(m) => (
            copy_opt(&m.item_name),
            copy_opt(&m.bundle_display_name),
            copy_opt(&m.item_id),
            copy_opt(&m.bundle_id),
            copy_opt(&m.bundle_short_version),
            copy_opt(&m.bundle_version),
            copy_opt(&m.icon_url),
            copy_opt(&m.artist_name),
        ),
        None => (None, None, None, None, None, None, None, None),
    };
    let (record_name, record_app_id, record_bundle, record_version, record_artwork, record_artist) = match record {
        Some(r) => (
            known_text(&r.app_name),
            known_text(&r.app_id),
            present_text(&r.bundle_id),
            present_text(&r.version),
            present_text(&r.artwork_url),
            present_text(&r.artist_name),
        ),
        None => (None, None, None, None, None, None),
    };
    let app_name = match or_else(record_name, or_else(item_name, display_name)) {
        Some(t) => t,
        None => fallback,
    };
    let app_id = match or_else(record_app_id, item_id) {
        Some(t) => t,
        None => "unknown".to_owned(),
    };
    let decision = derive_delivery_decision(inspection.as_ref(), true);
    let install_url = if decision.ota_installable {
        match record {
            Some(r) => match r.id {
                Some(rid) => build_record_install_url(base_url, r, rid, inspection.as_ref(), true, bundle_id_in_ipa),
                None => None,
            },
            None => None,
        }
    } else {
        None
    };
    let mut link: Vec<char> = Vec::new();
    push_str(&mut link, base_url);
    push_str(&mut link, "/api/ipa-files/");
    push_str(&mut link, id);
    push_str(&mut link, "/download");
    IpaArtifactView {
        id: id.to_owned(),
        file_name: file_name.to_owned(),
        file_size,
        file_path: file_path.to_owned(),
        modified_at,
        app_name,
        app_id,
        bundle_id: or_else(record_bundle, meta_bundle),
        version: or_else(record_version, or_else(short_version, long_version)),
        account_email: match record {
            Some(r) => Some(r.account_email.clone()),
            None => None,
        },
        account_region: match record {
            Some(r) => copy_opt(&r.account_region),
            None => None,
        },
        artwork_url: or_else(record_artwork, icon),
        artist_name: or_else(record_artist, artist),
        record_id: match record {
            Some(r) => r.id,
            None => None,
        },
        download_url: string_from_chars(link.as_slice()),
        install_url,
        package_kind: decision.package_kind,
        ota_installable: decision.ota_installable,
        install_method: decision.install_method,
        inspection,
    }
}

/// The name a file found on disk is recorded under: its file name without `.ipa`.
pub fn inferred_app_name(file_name: &str) -> (r: String)
    ensures
        r@ == trim_suffix_all(file_name@, ".ipa"@),
{
    string_from_chars(trim_suffix(chars_of(file_name).as_slice(), chars_of(".ipa").as_slice()).as_slice())
}

/// Whether a record is the one made for an IPA found on disk without a record: named
/// after the file (see [`inferred_app_name`]), of app `unknown` and account `未知账号`,
/// completed at 100% when the file was last changed, with the file's path and size.
pub open spec fn is_inferred_record(r: DownloadRecord, file_name: Seq<char>, file_path: Seq<char>, file_size: u64, modified_at: Option<Seq<char>>) -> bool {
    &&& r.id is None
    &&& r.job_id is None
    &&& r.app_name@ == trim_suffix_all(file_name, ".ipa"@)
    &&& r.app_id@ == "unknown"@
    &&& r.bundle_id is None
    &&& r.version is None
    &&& r.account_email@ == "未知账号"@
    &&& r.account_region is None
    &&& opt_text(r.download_date) == modified_at
    &&& r.status@ == "completed"@
    &&& r.file_size == Some(file_size as i64)
    &&& opt_text(r.file_path) == Some(file_path)
    &&& r.install_url is None
    &&& r.artwork_url is None
    &&& r.artist_name is None
    &&& r.progress == Some(100i64)
    &&& r.error is None
    &&& r.package_kind is None
    &&& r.ota_installable is None
    &&& r.install_method is None
    &&& r.inspection_json is None
    &&& r.created_at is None
}

/// The record made for an IPA found on disk without one (see [`is_inferred_record`]).
pub fn inferred_download_record(file_name: &str, file_path: &str, file_size: u64, modified_at: Option<String>) -> (r: DownloadRecord)
    ensures
        is_inferred_record(r, file_name@, file_path@, file_size, opt_text(modified_at)),
{
    DownloadRecord {
        id: None,
        job_id: None,
        app_name: inferred_app_name(file_name),
        app_id: "unknown".to_owned(),
        bundle_id: None,
        version: None,
        account_email: "未知账号".to_owned(),
        account_region: None,
        download_date: modified_at,
        status: "completed".to_owned(),
        file_size: Some(file_size as i64),
        file_path: Some(file_path.to_owned()),
        install_url: None,
        artwork_url: None,
        artist_name: None,
        progress: Some(100),
        error: None,
        package_kind: None,
        ota_installable: None,
        install_method: None,
        inspection_json: None,
        created_at: None,
    }
}

/// The largest upload accepted, in bytes (2 GiB).
pub const MAX_UPLOAD_BYTES: u64 = 2147483648;

/// Why an uploaded file name is refused: its lower-case form does not end with `.ipa`.
pub fn upload_name_problem(file_name: &str) -> (r: Option<String>)
    ensures
        seq_ends_with(crate::apple::lower_text(file_name@), ".ipa"@) ==> r is None,
        !seq_ends_with(crate::apple::lower_text(file_name@), ".ipa"@) ==> (r matches Some(m) && m@ == "只能上传 .ipa 文件"@),
{
    let lower = crate::apple::to_lower(file_name);
    if ends_with(chars_of(lower.as_str()).as_slice(), chars_of(".ipa").as_slice()) {
        None
    } else {
        Some("只能上传 .ipa 文件".to_owned())
    }
}

/// The size of an upload after one more chunk (adding without overflow, stopping at the
/// largest `u64`); refused past [`MAX_UPLOAD_BYTES`].
pub fn upload_size_after(received: u64, chunk_len: u64) -> (r: Result<u64, String>)
    ensures
        (if received + chunk_len > u64::MAX { u64::MAX as int } else { received + chunk_len }) > MAX_UPLOAD_BYTES ==> (r matches Err(
            m,
        ) && m@ == "上传文件不能超过 2GB"@),
        (if received + chunk_len > u64::MAX { u64::MAX as int } else { received + chunk_len }) <= MAX_UPLOAD_BYTES ==> (r matches Ok(
            n,
        ) && n == received + chunk_len),
{
    let total = received.saturating_add(chunk_len);
    if total > MAX_UPLOAD_BYTES {
        Err("上传文件不能超过 2GB".to_owned())
    } else {
        Ok(total)
    }
}

/// Whether a record is the one made for an uploaded IPA: named after the file (see
/// [`inferred_app_name`]), of app `uploaded` and account `手动上传`, under the upload's
/// job, completed at 100% `now`, with the file's path and size, and the delivery and
/// inspection of the file.
pub open spec fn is_upload_record(
    r: DownloadRecord,
    job_id: Seq<char>,
    file_name: Seq<char>,
    file_path: Seq<char>,
    file_size: u64,
    now: Seq<char>,
    inspection: Option<IpaInspection>,
    inspection_json: Option<Seq<char>>,
) -> bool {
    let delivery = spec_delivery(inspection, true);
    &&& r.id is None
    &&& opt_text(r.job_id) == Some(job_id)
    &&& r.app_name@ == trim_suffix_all(file_name, ".ipa"@)
    &&& r.app_id@ == "uploaded"@
    &&& r.bundle_id is None
    &&& r.version is None
    &&& r.account_email@ == "手动上传"@
    &&& r.account_region is None
    &&& opt_text(r.download_date) == Some(now)
    &&& r.status@ == "completed"@
    &&& r.file_size == Some(file_size as i64)
    &&& opt_text(r.file_path) == Some(file_path)
    &&& r.install_url is None
    &&& r.artwork_url is None
    &&& r.artist_name is None
    &&& r.progress == Some(100i64)
    &&& r.error is None
    &&& opt_text(r.package_kind) == Some(delivery.0)
    &&& r.ota_installable == Some(delivery.1)
    &&& opt_text(r.install_method) == Some(delivery.2)
    &&& opt_text(r.inspection_json) == inspection_json
    &&& r.created_at is None
}

/// The record made for an uploaded IPA (see [`is_upload_record`]); `inspection_json` is
/// the stored form of `inspection`.
pub fn upload_record(
    job_id: &str,
    file_name: &str,
    file_path: &str,
    file_size: u64,
    now: String,
    inspection: Option<&IpaInspection>,
    inspection_json: Option<String>,
) -> (r: DownloadRecord)
    ensures
        is_upload_record(
            r,
            job_id@,
            file_name@,
            file_path@,
            file_size,
            now@,
            match inspection {
                Some(i) => Some(*i),
                None => None,
            },
            opt_text(inspection_json),
        ),
{
    let decision = derive_delivery_decision(inspection, true);
    DownloadRecord {
        id: None,
        job_id: Some(job_id.to_owned()),
        app_name: inferred_app_name(file_name),
        app_id: "uploaded".to_owned(),
        bundle_id: None,
        version: None,
        account_email: "手动上传".to_owned(),
        account_region: None,
        download_date: Some(now),
        status: "completed".to_owned(),
        file_size: Some(file_size as i64),
        file_path: Some(file_path.to_owned()),
        install_url: None,
        artwork_url: None,
        artist_name: None,
        progress: Some(100),
        error: None,
        package_kind: Some(decision.package_kind),
        ota_installable: Some(decision.ota_installable),
        install_method: Some(decision.install_method),
        inspection_json,
        created_at: None,
    }
}

/// Whether a view is the one the API shows for a download record: the record's own
/// fields; its download link when it has an id; its install link when it has an id and its
/// file can be installed over the air; the delivery its inspection gives; whether its
/// file exists; and the inspection.
pub open spec fn is_record_view(
    v: DownloadRecordView,
    r: DownloadRecord,
    inspection: Option<IpaInspection>,
    file_exists: bool,
    base_url: Seq<char>,
    bundle_id_in_ipa: Option<Seq<char>>,
) -> bool {
    let delivery = spec_delivery(inspection, file_exists);
    &&& v.id == r.id
    &&& opt_text(v.job_id) == opt_text(r.job_id)
    &&& v.app_name@ == r.app_name@
    &&& v.app_id@ == r.app_id@
    &&& opt_text(v.bundle_id) == opt_text(r.bundle_id)
    &&& opt_text(v.version) == opt_text(r.version)
    &&& v.account_email@ == r.account_email@
    &&& opt_text(v.account_region) == opt_text(r.account_region)
    &&& opt_text(v.download_date) == opt_text(r.download_date)
    &&& v.status@ == r.status@
    &&& v.file_size == r.file_size
    &&& opt_text(v.file_path) == opt_text(r.file_path)
    &&& opt_text(v.download_url) == match r.id {
        Some(id) => Some(spec_record_download_url(base_url, id as int)),
        None => None,
    }
    &&& opt_text(v.install_url) == (if delivery.1 {
        match r.id {
            Some(id) => spec_record_install_url(base_url, r, id as int, inspection, file_exists, bundle_id_in_ipa),
            None => None,
        }
    } else {
        None
    })
    &&& opt_text(v.artwork_url) == opt_text(r.artwork_url)
    &&& opt_text(v.artist_name) == opt_text(r.artist_name)
    &&& v.progress == r.progress
    &&& opt_text(v.error) == opt_text(r.error)
    &&& (v.package_kind@, v.ota_installable, v.install_method@) == delivery
    &&& opt_text(v.created_at) == opt_text(r.created_at)
    &&& v.file_exists == file_exists
    &&& v.inspection == inspection
}

/// The view the API shows for a download record (see [`is_record_view`]); `inspection`
/// is the record's (stored, else of its file), and `bundle_id_in_ipa` the bundle id its
/// IPA declares.
pub fn download_record_view(
    record: DownloadRecord,
    inspection: Option<IpaInspection>,
    file_exists: bool,
    base_url: &str,
    bundle_id_in_ipa: Option<String>,
) -> (v: DownloadRecordView)
    ensures
        is_record_view(v, record, inspection, file_exists, base_url@, opt_text(bundle_id_in_ipa)),
{
    let decision = derive_delivery_decision(inspection.as_ref(), file_exists);
    let download_url = match record.id {
        Some(id) => Some(build_record_download_url(base_url, id)),
        None => None,
    };
    let install_url = if decision.ota_installable {
        match record.id {
            Some(id) => build_record_install_url(base_url, &record, id, inspection.as_ref(), file_exists, bundle_id_in_ipa),
            None => None,
        }
    } else {
        None
    };
    DownloadRecordView {
        id: record.id,
        job_id: record.job_id,
        app_name: record.app_name,
        app_id: record.app_id,
        bundle_id: record.bundle_id,
        version: record.version,
        account_email: record.account_email,
        account_region: record.account_region,
        download_date: record.download_date,
        status: record.status,
        file_size: record.file_size,
        file_path: record.file_path,
        download_url,
        install_url,
        artwork_url: record.artwork_url,
        artist_name: record.artist_name,
        progress: record.progress,
        error: record.error,
        package_kind: decision.package_kind,
        ota_installable: decision.ota_installable,
        install_method: decision.install_method,
        created_at: record.created_at,
        file_exists,
        inspection,
    }
}

} // verus!
