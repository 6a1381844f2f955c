use base64::Engine;
use ipatool::apple::{get_license_error_message, is_session_error};
use ipatool::delivery::{derive_delivery_decision, extract_record_id_from_download_url, is_placeholder_bundle_id, parse_i64};
use ipatool::inspection::IpaInspection;
use ipatool::jobs::{JobEvent, JobState, ProgressReport};
use ipatool::json::{JsonNode, JsonNumber};
use ipatool::links::{
    build_base_url, build_job_install_url, build_job_manifest_url, build_record_download_url, build_record_install_url,
    community_archive_base_url, github_contents_api_path,
};
use ipatool::naming::build_download_task_slug;
use ipatool::passwords::{hash_password, hex_encode, verify_password};
use ipatool::records::DownloadRecord;
use ipatool::versions::{
    extract_version_array, extract_version_created_at, extract_version_external_identifier, extract_version_label,
    extract_version_size, format_version_item, merge_version_lists, merge_version_records, parse_json_i64,
    version_merge_key, versions_offered, VersionItem,
};
use sha2::Digest;

fn text(s: &str) -> JsonNode {
    JsonNode::String(s.to_string())
}

fn num(v: i64) -> JsonNode {
    JsonNode::Number(JsonNumber { integer: Some(v as i128), real: v.to_string(), text: v.to_string(), whole: v })
}

fn object(members: Vec<(&str, JsonNode)>) -> JsonNode {
    let mut members: Vec<(String, JsonNode)> = members.into_iter().map(|(k, v)| (k.to_string(), v)).collect();
    members.sort_by(|a, b| a.0.cmp(&b.0));
    JsonNode::Object(members)
}

fn members(pairs: Vec<(&str, JsonNode)>) -> Vec<(String, JsonNode)> {
    pairs.into_iter().map(|(k, v)| (k.to_string(), v)).collect()
}

fn inspection(direct_install_ok: bool, provisioned: bool, manifest: bool, missing: usize, encrypted: usize) -> IpaInspection {
    IpaInspection {
        has_sc_info_manifest: manifest,
        has_embedded_mobileprovision: provisioned,
        declared_sinf_paths: Vec::new(),
        present_sinf_paths: Vec::new(),
        missing_sinf_paths: (0..missing).map(|i| format!("SC_Info/{i}.sinf")).collect(),
        encrypted_binaries: (0..encrypted).map(|i| format!("Payload/A.app/{i}")).collect(),
        direct_install_ok,
        blocked_reason: None,
        recommended_action: None,
        summary: String::new(),
        bundle_id: None,
        bundle_short_version: None,
        bundle_display_name: None,
        executable: None,
    }
}

fn record(app_name: &str, bundle_id: Option<&str>, version: Option<&str>, file_path: Option<&str>) -> DownloadRecord {
    DownloadRecord {
        id: Some(7),
        job_id: None,
        app_name: app_name.to_string(),
        app_id: "414478124".to_string(),
        bundle_id: bundle_id.map(str::to_string),
        version: version.map(str::to_string),
        account_email: "tester@example.com".to_string(),
        account_region: None,
        download_date: None,
        status: "completed".to_string(),
        file_size: None,
        file_path: file_path.map(str::to_string),
        install_url: None,
        artwork_url: None,
        artist_name: None,
        progress: None,
        error: None,
        package_kind: None,
        ota_installable: None,
        install_method: None,
        inspection_json: None,
        created_at: None,
    }
}

fn report(phase: &str, percent: u32) -> ProgressReport {
    ProgressReport {
        phase: phase.to_string(),
        message: format!("{} {}%", phase, percent),
        percent: Some(percent),
        file_size: Some(100),
        downloaded: Some(50),
    }
}

#[test]
fn test_bcrypt_hash_and_verify() {
    let hash = hash_password("admin").expect("bcrypt::hash should not fail");
    assert!(hash.starts_with("$2b$"), "bcrypt hash should start with $2b$, got: {}", hash);
    assert!(verify_password("admin", &hash));
    assert!(!verify_password("wrong", &hash));
}

#[test]
fn test_generate_admin123_hash() {
    let hash = hash_password("admin123").unwrap();
    assert!(hash.len() == 60);
    assert!(verify_password("admin123", &hash));
    let stored = "$2b$12$0PJlomYxFRPWbHTKWypoSelCZjiq0FvqHwFKT.6z38Qv/nnk6Wl/W";
    assert!(verify_password("admin123", stored));
}

#[test]
fn build_download_task_slug_uses_stable_sanitized_components() {
    let slug = build_download_task_slug(Some("微信 / WeChat"), "414478124", Some("8.0.58"), None);
    assert_eq!(slug, "WeChat-414478124-8.0.58");
}

#[test]
fn build_download_task_slug_falls_back_to_app_ver_id_or_latest() {
    let from_ver_id = build_download_task_slug(None, "414478124", None, Some("123456789"));
    assert_eq!(from_ver_id, "414478124-414478124-123456789");

    let latest = build_download_task_slug(Some("WeChat"), "414478124", None, None);
    assert_eq!(latest, "WeChat-414478124-latest");
}

#[test]
fn terminal_ready_state_is_not_overwritten_by_late_progress() {
    let mut job = JobState::new("job-ready".to_string());
    job.set_running();
    job.mark_ready("/tmp/app.ipa".to_string(), None, None);
    let late = job.update_from_progress(&report("downloading", 42));
    assert!(late.is_none());
    assert_eq!(job.status, "ready");
    assert_eq!(job.stage, "done");
    assert_eq!(job.progress, 100);
}

#[test]
fn terminal_failed_state_is_not_overwritten_by_late_progress() {
    let mut job = JobState::new("job-failed".to_string());
    job.set_running();
    job.mark_failed("boom".to_string());
    let late = job.update_from_progress(&report("downloading", 80));
    assert!(late.is_none());
    assert_eq!(job.status, "failed");
    assert_eq!(job.error.as_deref(), Some("boom"));
}

#[test]
fn running_job_follows_progress_and_emits_it() {
    let mut job = JobState::new("job-1".to_string());
    assert_eq!(job.status, "queued");
    job.set_running();
    let event = job.update_from_progress(&report("downloading", 42));
    assert_eq!(job.status, "running");
    assert_eq!(job.stage, "downloading");
    assert_eq!(job.progress, 42);
    match event {
        Some(JobEvent::Progress(p)) => {
            let payload = p.progress.unwrap();
            assert_eq!(payload.percent, 42);
            assert_eq!(payload.downloaded, Some(50));
            assert_eq!(payload.total, Some(100));
            assert!(p.status.is_none());
        },
        _ => panic!("expected a progress event"),
    }
    let mut silent = report("verifying", 0);
    silent.percent = None;
    job.update_from_progress(&silent);
    assert_eq!(job.stage, "verifying");
    assert_eq!(job.progress, 42);
}

#[test]
fn legacy_sha256_hashes_still_verify() {
    let legacy = hex::encode(sha2::Sha256::digest(b"admin"));
    assert_eq!(legacy.len(), 64);
    assert!(verify_password("admin", &legacy));
    assert!(!verify_password("other", &legacy));
    assert!(!verify_password("admin", "$2b$12$not-a-real-hash-but-sixty-bytes-long-xxxxxxxxxxxxxxxxxxxx"));
}

#[test]
fn hex_encode_is_lower_case_pairs() {
    assert_eq!(hex_encode(&[0x00, 0x0f, 0xab, 0xff]), "000fabff");
    assert_eq!(hex_encode(&[]), "");
}

#[test]
fn placeholder_bundle_ids() {
    assert!(is_placeholder_bundle_id(""));
    assert!(is_placeholder_bundle_id("   "));
    assert!(is_placeholder_bundle_id(" Unknown.Bundle "));
    assert!(!is_placeholder_bundle_id("com.example.app"));
    assert!(!is_placeholder_bundle_id("unknown.bundles"));
}

#[test]
fn delivery_decisions_for_each_kind() {
    let d = derive_delivery_decision(Some(&inspection(true, true, false, 0, 0)), true);
    assert_eq!((d.package_kind.as_str(), d.ota_installable, d.install_method.as_str()), ("ota_sideloadable", true, "ota"));
    let d = derive_delivery_decision(Some(&inspection(true, false, true, 0, 0)), true);
    assert_eq!((d.package_kind.as_str(), d.ota_installable, d.install_method.as_str()), ("appstore_sinf_package", true, "ota"));
    let d = derive_delivery_decision(Some(&inspection(false, false, true, 2, 0)), false);
    assert_eq!(
        (d.package_kind.as_str(), d.ota_installable, d.install_method.as_str()),
        ("appstore_incomplete_sinf", false, "manual_review")
    );
    let d = derive_delivery_decision(Some(&inspection(false, false, false, 0, 1)), true);
    assert_eq!((d.package_kind.as_str(), d.ota_installable, d.install_method.as_str()), ("fairplay_encrypted", false, "download_only"));
    let d = derive_delivery_decision(Some(&inspection(false, false, false, 0, 0)), true);
    assert_eq!((d.package_kind.as_str(), d.ota_installable, d.install_method.as_str()), ("broken_or_unknown", false, "download_only"));
    let d = derive_delivery_decision(None, true);
    assert_eq!((d.package_kind.as_str(), d.ota_installable, d.install_method.as_str()), ("unknown", false, "manual_review"));
    let d = derive_delivery_decision(None, false);
    assert_eq!((d.package_kind.as_str(), d.ota_installable, d.install_method.as_str()), ("missing_file", false, "none"));
}

#[test]
fn record_ids_in_download_links() {
    assert_eq!(extract_record_id_from_download_url("https://h/api/public/download-records/42/file"), Some(42));
    assert_eq!(extract_record_id_from_download_url("https://h/api/public/download-records/-7"), Some(-7));
    assert_eq!(extract_record_id_from_download_url("https://h/api/public/download-records/x1/file"), None);
    assert_eq!(extract_record_id_from_download_url("https://h/api/other/42"), None);
    assert_eq!(extract_record_id_from_download_url("https://h/api/public/download-records//file"), None);
}

#[test]
fn parse_i64_limits() {
    let chars = |s: &str| s.chars().collect::<Vec<char>>();
    assert_eq!(parse_i64(&chars("9223372036854775807")), Some(i64::MAX));
    assert_eq!(parse_i64(&chars("-9223372036854775808")), Some(i64::MIN));
    assert_eq!(parse_i64(&chars("9223372036854775808")), None);
    assert_eq!(parse_i64(&chars("+12")), Some(12));
    assert_eq!(parse_i64(&chars("-")), None);
    assert_eq!(parse_i64(&chars("1 2")), None);
}

#[test]
fn json_i64_readings() {
    assert_eq!(parse_json_i64(Some(&num(12))), Some(12));
    assert_eq!(parse_json_i64(Some(&text(" 34 "))), Some(34));
    assert_eq!(parse_json_i64(Some(&text("x"))), None);
    let real = JsonNode::Number(JsonNumber { integer: None, real: "2.9".to_string(), text: "2.9".to_string(), whole: 2 });
    assert_eq!(parse_json_i64(Some(&real)), Some(2));
    assert_eq!(parse_json_i64(Some(&JsonNode::Bool(true))), None);
    assert_eq!(parse_json_i64(None), None);
}

#[test]
fn version_entry_fields() {
    let item = object(vec![
        ("version", text("2.0")),
        ("name", text("ignored")),
        ("externalVersionId", text("815")),
        ("asset", object(vec![("size", num(2048))])),
        ("date", text("2024-01-02")),
    ]);
    assert_eq!(extract_version_label(&item), "2.0");
    assert_eq!(extract_version_external_identifier(&item), 815);
    assert_eq!(extract_version_size(&item), 2048);
    assert_eq!(extract_version_created_at(&item), "2024-01-02");
    let formatted = format_version_item(&item);
    assert_eq!(formatted.bundle_version, "2.0");
    assert_eq!(formatted.external_identifier, 815);

    let odd = object(vec![("bundle_version", num(3)), ("size", text("n/a")), ("file_size", num(9))]);
    assert_eq!(extract_version_label(&odd), "");
    assert_eq!(extract_version_external_identifier(&odd), 0);
    assert_eq!(extract_version_size(&odd), 9);
}

fn version(label: &str, id: i64, size: i64, created: &str) -> VersionItem {
    VersionItem { bundle_version: label.to_string(), external_identifier: id, size, created_at: created.to_string() }
}

#[test]
fn version_keys() {
    assert_eq!(version_merge_key(&version("1.0", 55, 0, "")), Some("id:55".to_string()));
    assert_eq!(version_merge_key(&version("1.0", 0, 0, "2024")), Some("ver:1.0@2024".to_string()));
    assert_eq!(version_merge_key(&version("1.0", -3, 0, "")), Some("ver:1.0".to_string()));
    assert_eq!(version_merge_key(&version("", 0, 0, "2024")), None);
}

#[test]
fn merging_version_records_fills_missing_fields_only() {
    let mut primary = version("1.0", 5, 0, "");
    merge_version_records(&mut primary, &version("x", 9, 300, "2024-05-01"));
    assert_eq!(primary.size, 300);
    assert_eq!(primary.created_at, "2024-05-01");
    assert_eq!(primary.bundle_version, "1.0");
    assert_eq!(primary.external_identifier, 5);
    merge_version_records(&mut primary, &version("x", 9, 999, "2025"));
    assert_eq!(primary.size, 300);
    assert_eq!(primary.created_at, "2024-05-01");
}

#[test]
fn merging_version_lists_keeps_each_version_once() {
    let primary = vec![version("1.0", 10, 0, ""), version("2.0", 20, 500, "2024"), version("", 0, 0, "")];
    let secondary = vec![
        version("1.0", 10, 100, "2023"),
        version("3.0", 30, 700, ""),
        version("3.0b", 30, 1, "x"),
        version("", 0, 0, ""),
    ];
    let merged = merge_version_lists(primary, secondary);
    assert_eq!(merged.len(), 5);
    assert_eq!(merged[0].size, 100);
    assert_eq!(merged[0].created_at, "2023");
    assert_eq!(merged[1].size, 500);
    assert_eq!(merged[3].bundle_version, "3.0");
    assert_eq!(merged[3].size, 700);
    assert_eq!(merged[3].created_at, "x");
    assert_eq!(merged[4].bundle_version, "");
}

#[test]
fn offered_versions_merge_both_services_and_drop_unlabelled() {
    let first = object(vec![(
        "data",
        JsonNode::Array(vec![
            object(vec![("bundle_version", text("1.0")), ("external_identifier", num(1))]),
            object(vec![("bundle_version", text("")), ("external_identifier", num(2))]),
        ]),
    )]);
    let second = JsonNode::Array(vec![
        object(vec![("version", text("1.0")), ("id", num(1)), ("size", num(42)), ("created_at", text("2024"))]),
        object(vec![("version", text("0.9")), ("id", num(0))]),
        object(vec![("name", text("0.8")), ("appVersionId", text("8"))]),
    ]);
    let offered = versions_offered(&first, &second);
    assert_eq!(offered.len(), 2);
    assert_eq!(offered[0].bundle_version, "1.0");
    assert_eq!(offered[0].size, 42);
    assert_eq!(offered[0].created_at, "2024");
    assert_eq!(offered[1].bundle_version, "0.8");
    assert_eq!(offered[1].external_identifier, 8);
    assert!(versions_offered(&JsonNode::Null, &JsonNode::Null).is_empty());
    assert_eq!(extract_version_array(&second).len(), 3);
    assert_eq!(extract_version_array(&text("x")).len(), 0);
}

#[test]
fn service_links() {
    assert_eq!(build_base_url(Some("  https://ipa.example.com//  "), "http", "localhost:8080"), "https://ipa.example.com");
    assert_eq!(build_base_url(Some(" / "), "http", "localhost:8080"), "http://localhost:8080");
    assert_eq!(build_base_url(None, "https", "h"), "https://h");
    assert_eq!(build_record_download_url("https://h", 12), "https://h/api/public/download-records/12/file");
    assert_eq!(build_job_manifest_url("https://h", "a b/c"), "https://h/api/public/manifest?jobId=a%20b%2Fc");
    assert_eq!(
        build_job_install_url("https://h", "j1"),
        "itms-services://?action=download-manifest&url=https%3A%2F%2Fh%2Fapi%2Fpublic%2Fmanifest%3FjobId%3Dj1"
    );
    assert_eq!(github_contents_api_path("apps/delisted/a b.json"), "apps/delisted/a%20b.json");
    assert_eq!(github_contents_api_path("x"), "x");
    assert_eq!(community_archive_base_url(None), "https://raw.githubusercontent.com/ruanrrn/ipa-archive/main");
    assert_eq!(community_archive_base_url(Some("   ")), "https://raw.githubusercontent.com/ruanrrn/ipa-archive/main");
    assert_eq!(community_archive_base_url(Some("https://mirror/x//")), "https://mirror/x");
}

#[test]
fn record_install_links() {
    let ok = inspection(true, true, false, 0, 0);
    let rec = record("", Some("unknown.bundle"), Some("8.0"), Some("/data/downloads/WeChat.ipa.ipa"));
    let url = build_record_install_url("https://h", &rec, 7, Some(&ok), true, Some("com.tencent.xin".to_string())).unwrap();
    let raw = format!(
        "{}/{}/{}",
        urlencoding::encode("https://h/api/public/download-records/7/file"),
        urlencoding::encode("WeChat@com.tencent.xin"),
        urlencoding::encode("8.0")
    );
    let token = base64::engine::general_purpose::URL_SAFE_NO_PAD.encode(raw.as_bytes());
    let manifest = format!("https://h/i/{}.plist", token);
    assert_eq!(url, format!("itms-services://?action=download-manifest&url={}", urlencoding::encode(&manifest)));

    let blocked = inspection(false, false, false, 0, 1);
    assert!(build_record_install_url("https://h", &rec, 7, Some(&blocked), true, Some("com.a".to_string())).is_none());
    let no_version = record("App", Some("com.a"), Some(""), None);
    assert!(build_record_install_url("https://h", &no_version, 7, Some(&ok), true, None).is_none());
    let no_bundle = record("App", None, Some("1"), None);
    assert!(build_record_install_url("https://h", &no_bundle, 7, Some(&ok), true, None).is_none());
}

#[test]
fn session_errors_and_licence_messages() {
    let session = members(vec![("customerMessage", text("Your Session Expired, sign in"))]);
    assert!(is_session_error(&session));
    let other = members(vec![("customerMessage", text("Something else"))]);
    assert!(!is_session_error(&other));
    let licence = members(vec![("customerMessage", text("License not found")), ("failureType", text(""))]);
    assert_eq!(get_license_error_message(&licence), "您尚未购买此应用，正在尝试免费获取...");
    let mismatch = members(vec![("failureType", text("STORE FRONT MISMATCH"))]);
    assert_eq!(get_license_error_message(&mismatch), "账号区域与应用不匹配");
}

use ipatool::download_flow::{chunk_count, chunk_range, download_package, next_download_step, package_name_fits, DownloadStage, DownloadStep};
use ipatool::download_jobs::{
    app_version_key, completed_download_record, direct_query_outcome, download_hints, live_job_info, persisted_job_info,
    record_delivery_outdated, reused_download_response, QueryOutcome,
};
use ipatool::metadata::IpaMetadata;
use ipatool::models::StartDownloadDirectRequest;
use ipatool::records::DownloadMetadata;

fn stopped(step: &DownloadStep) -> (String, bool, bool) {
    match step {
        DownloadStep::Stop(res) => {
            assert!(!res.ok);
            (res.error.clone().unwrap(), res.needs_reauth, res.needs_purchase)
        },
        _ => panic!("expected a stop"),
    }
}

#[test]
fn download_steps_after_each_reply() {
    let ok = members(vec![("_state", text("success"))]);
    assert!(matches!(next_download_step(DownloadStage::Query, false, &ok), DownloadStep::Fetch));
    assert!(matches!(next_download_step(DownloadStage::Purchase, false, &ok), DownloadStep::Query));
    assert!(matches!(next_download_step(DownloadStage::Requery, false, &ok), DownloadStep::Fetch));

    let expired = members(vec![("_state", text("failure")), ("customerMessage", text("Session expired"))]);
    assert_eq!(stopped(&next_download_step(DownloadStage::Query, true, &expired)), ("会话已失效，请重新登录".to_string(), true, false));

    let unlicensed = members(vec![("failureType", text("License not found")), ("customerMessage", text("License not found"))]);
    assert!(matches!(next_download_step(DownloadStage::Query, true, &unlicensed), DownloadStep::Purchase));
    assert_eq!(
        stopped(&next_download_step(DownloadStage::Query, false, &unlicensed)),
        ("您尚未购买此应用，正在尝试免费获取...".to_string(), false, true)
    );

    let other = members(vec![("customerMessage", text("Try later"))]);
    assert_eq!(stopped(&next_download_step(DownloadStage::Query, true, &other)), ("Try later".to_string(), false, false));
    let silent = members(vec![("_state", text("failure"))]);
    assert_eq!(stopped(&next_download_step(DownloadStage::Query, true, &silent)), ("下载失败".to_string(), false, false));
    assert_eq!(stopped(&next_download_step(DownloadStage::Requery, true, &other)), ("Try later".to_string(), false, true));
}

#[test]
fn download_package_from_reply() {
    let metadata = object(vec![
        ("bundleDisplayName", text("We Chat")),
        ("bundleShortVersionString", text("8.0")),
        ("bundleId", text("com.tencent.xin")),
        ("artworkUrl512", text("https://a/512.png")),
        ("artistName", text("Tencent")),
    ]);
    let song = object(vec![("URL", text("https://dl/a.ipa")), ("metadata", metadata)]);
    let reply = members(vec![("_state", text("success")), ("songList", JsonNode::Array(vec![song]))]);
    assert!(package_name_fits(&reply));
    let package = download_package(&reply).unwrap();
    assert_eq!(package.file_url, "https://dl/a.ipa");
    assert_eq!(package.file_name, "We_Chat-8.0@com.tencent.xin.ipa");
    assert_eq!(package.metadata.bundle_display_name, "We Chat");
    assert_eq!(package.metadata.artwork_url, "https://a/512.png");
    assert_eq!(package.metadata.artist_name, "Tencent");

    let bare = object(vec![("URL", text("https://dl/b.ipa")), ("metadata", object(vec![]))]);
    let package = download_package(&members(vec![("songList", JsonNode::Array(vec![bare]))])).unwrap();
    assert_eq!(package.file_name, "Unknown-1.0.ipa");
    assert_eq!(package.metadata.bundle_id, "");

    assert_eq!(download_package(&members(vec![])).unwrap_err(), "Invalid song list");
    assert_eq!(download_package(&members(vec![("songList", JsonNode::Array(vec![]))])).unwrap_err(), "Invalid song list");
    assert_eq!(download_package(&members(vec![("songList", JsonNode::Array(vec![text("x")]))])).unwrap_err(), "Invalid song list format");
    let no_url = object(vec![("metadata", object(vec![]))]);
    assert_eq!(download_package(&members(vec![("songList", JsonNode::Array(vec![no_url]))])).unwrap_err(), "Invalid file URL");
    let no_meta = object(vec![("URL", text("u"))]);
    assert_eq!(download_package(&members(vec![("songList", JsonNode::Array(vec![no_meta]))])).unwrap_err(), "Invalid metadata");
}

#[test]
fn chunk_plan_covers_the_file() {
    let mib5: u64 = 5 * 1024 * 1024;
    assert_eq!(chunk_count(1), 1);
    assert_eq!(chunk_count(mib5), 1);
    assert_eq!(chunk_count(mib5 + 1), 2);
    assert_eq!(chunk_range(mib5 + 1, 0), (0, mib5 - 1, mib5));
    assert_eq!(chunk_range(mib5 + 1, 1), (mib5, mib5, mib5 + 1));
    assert_eq!(chunk_range(10, 0), (0, 9, 10));
}

#[test]
fn direct_download_query_outcomes() {
    assert!(matches!(direct_query_outcome(&members(vec![("_state", text("success"))])), QueryOutcome::Ready));
    match direct_query_outcome(&members(vec![("customerMessage", text("应用未购买"))])) {
        QueryOutcome::NeedsPurchase(m) => assert_eq!(m, "您尚未购买此应用"),
        _ => panic!("expected a purchase"),
    }
    match direct_query_outcome(&members(vec![("failureType", text("9610"))])) {
        QueryOutcome::Failed(m) => assert_eq!(m, "9610"),
        _ => panic!("expected a failure"),
    }
    match direct_query_outcome(&members(vec![("customerMessage", num(3))])) {
        QueryOutcome::Failed(m) => assert_eq!(m, "下载失败"),
        _ => panic!("expected a failure"),
    }
}

fn direct_request() -> StartDownloadDirectRequest {
    StartDownloadDirectRequest {
        token: "t".to_string(),
        appid: "414478124".to_string(),
        appVerId: Some("8001".to_string()),
        appName: Some("".to_string()),
        bundleId: Some("Unknown.Bundle".to_string()),
        appVersion: None,
        artworkUrl: Some("https://art".to_string()),
        artistName: None,
        autoPurchase: false,
    }
}

#[test]
fn download_hints_and_version_key() {
    let hints = download_hints(&direct_request());
    assert!(hints.app_name.is_none());
    assert!(hints.bundle_id.is_none());
    assert_eq!(hints.artwork_url.as_deref(), Some("https://art"));
    assert_eq!(app_version_key(&hints, Some("8001")), "8001");
    assert_eq!(app_version_key(&hints, None), "latest");
}

fn ipa_metadata() -> IpaMetadata {
    IpaMetadata {
        item_id: None,
        item_name: Some("微信".to_string()),
        bundle_display_name: Some("WeChat".to_string()),
        bundle_id: Some("com.tencent.xin".to_string()),
        bundle_short_version: Some("8.0".to_string()),
        bundle_version: None,
        artist_name: None,
        artist_id: None,
        genre: None,
        genre_id: None,
        release_date: None,
        copyright: None,
        icon_url: Some("https://icon".to_string()),
        has_iap: None,
        min_os_version: None,
        primary_icon_bytes: None,
    }
}

#[test]
fn completed_records_take_the_best_known_names() {
    let hints = download_hints(&direct_request());
    let meta = DownloadMetadata {
        bundle_display_name: "".to_string(),
        bundle_short_version_string: "8.0.1".to_string(),
        bundle_id: "".to_string(),
        artwork_url: "".to_string(),
        artist_name: "Tencent".to_string(),
    };
    let ipa = ipa_metadata();
    let ok = inspection(true, true, false, 0, 0);
    let rec = completed_download_record(
        "job-1",
        "414478124",
        Some(&meta),
        Some(&ipa),
        &hints,
        Some("8001"),
        Some("WeChat-8.0"),
        "me@example.com",
        Some("US".to_string()),
        "2024-01-01T00:00:00Z".to_string(),
        Some(1234),
        "/d/WeChat-8.0.ipa",
        Some(&ok),
        Some("{}".to_string()),
    );
    assert_eq!(rec.app_name, "微信");
    assert_eq!(rec.bundle_id.as_deref(), Some("com.tencent.xin"));
    assert_eq!(rec.version.as_deref(), Some("8.0.1"));
    assert_eq!(rec.artwork_url.as_deref(), Some("https://icon"));
    assert_eq!(rec.artist_name.as_deref(), Some("Tencent"));
    assert_eq!(rec.status, "completed");
    assert_eq!(rec.progress, Some(100));
    assert_eq!(rec.package_kind.as_deref(), Some("ota_sideloadable"));
    assert_eq!(rec.ota_installable, Some(true));

    let none = completed_download_record(
        "job-2", "414478124", None, None, &hints, None, None, "me@example.com", None, "d".to_string(), None, "/d/x.ipa", None, None,
    );
    assert_eq!(none.app_name, "414478124");
    assert!(none.version.is_none());
    assert_eq!(none.package_kind.as_deref(), Some("unknown"));
}

#[test]
fn reused_downloads_and_job_information() {
    let ok = inspection(true, true, false, 0, 0);
    let rec = record("WeChat", Some("com.tencent.xin"), Some("8.0"), Some("/d/WeChat.ipa"));
    let reused = reused_download_response("https://h", &rec, "/d/WeChat.ipa", Some(&ok), None, "slug", "8.0", "/d/jobs/slug", Some(99));
    assert_eq!(reused.job_id, "slug");
    assert_eq!(reused.download_url, "https://h/api/public/download-records/7/file");
    assert!(reused.install_url.as_deref().unwrap().starts_with("itms-services://?action=download-manifest&url="));
    assert_eq!(reused.file_size, Some(99));
    assert!(reused.reused);

    let lost = persisted_job_info("job-9", &rec, Some(inspection(true, true, false, 0, 0)), false, "https://h", None);
    assert_eq!(lost.status, "failed");
    assert_eq!(lost.stage, "missing-file");
    assert_eq!(lost.progress, 0);
    assert!(lost.download_url.is_none());
    assert!(lost.install_url.is_some());
    assert_eq!(lost.error.as_deref(), Some("任务记录存在，但安装包文件已丢失"));
    let found = persisted_job_info("job-9", &rec, Some(inspection(true, true, false, 0, 0)), true, "https://h", None);
    assert_eq!((found.status.as_str(), found.stage.as_str(), found.progress), ("ready", "done", 100));
    assert!(found.install_url.is_some());

    let mut job = JobState::new("job-5".to_string());
    job.set_running();
    let running = live_job_info("job-5", &job, Some(&rec), None, None, false, false, "https://h", None);
    assert!(running.download_url.is_none());
    assert_eq!(running.package_kind, "missing_file");
    job.mark_ready("/d/x.ipa".to_string(), None, None);
    let ready = live_job_info("job-5", &job, None, None, Some(inspection(true, true, false, 0, 0)), true, false, "https://h", None);
    assert_eq!(ready.download_url.as_deref(), Some("https://h/api/public/download-file?jobId=job-5"));
    assert_eq!(
        ready.install_url.as_deref(),
        Some("itms-services://?action=download-manifest&url=https%3A%2F%2Fh%2Fapi%2Fpublic%2Fmanifest%3FjobId%3Djob-5")
    );
    assert_eq!(ready.package_kind, "ota_sideloadable");
}

#[test]
fn record_delivery_needs_update_until_stored() {
    let ok = inspection(true, true, false, 0, 0);
    let mut rec = record("A", Some("com.a"), Some("1"), None);
    assert!(record_delivery_outdated(&rec, Some(&ok), &Some("{}".to_string()), true));
    rec.package_kind = Some("ota_sideloadable".to_string());
    rec.ota_installable = Some(true);
    rec.install_method = Some("ota".to_string());
    rec.inspection_json = Some("{}".to_string());
    assert!(!record_delivery_outdated(&rec, Some(&ok), &Some("{}".to_string()), true));
    rec.id = None;
    assert!(!record_delivery_outdated(&rec, None, &None, false));
}

use ipatool::install_tokens::{
    install_token_fields, job_manifest_fields, percent_decode, query_manifest_fields, read_install_token, ManifestFields,
    ManifestRefusal, TokenProblem,
};
use ipatool::models::ManifestQuery;

fn token_of(raw: &[u8]) -> String {
    base64::engine::general_purpose::URL_SAFE_NO_PAD.encode(raw)
}

fn fields(f: &ManifestFields) -> (String, String, String, String) {
    (f.url.clone(), f.bundle_id.clone(), f.bundle_version.clone(), f.title.clone())
}

fn refused(r: Result<ManifestFields, ManifestRefusal>) -> (u16, String) {
    let e = r.err().unwrap();
    (e.status, e.message)
}

#[test]
fn percent_decoding() {
    assert_eq!(percent_decode("a%20b").as_deref(), Some("a b"));
    assert_eq!(percent_decode("a+b").as_deref(), Some("a+b"));
    assert_eq!(percent_decode("%E4%B8%AD").as_deref(), Some("中"));
    assert_eq!(percent_decode("%zz%4").as_deref(), Some("%zz%4"));
    assert_eq!(percent_decode("%4G%41").as_deref(), Some("%4GA"));
    assert_eq!(percent_decode("%ff"), None);
    for s in ["https://h/api/public/download-records/7/file", "微信@com.tencent.xin", "1.0 (b)/x"] {
        assert_eq!(percent_decode(&urlencoding::encode(s)).as_deref(), Some(s));
    }
}

#[test]
fn install_tokens_read_back() {
    let raw = "https%3A%2F%2Fh%2Ff/My%40App%40com.a/1.2";
    let parts = read_install_token(&format!("{}.plist", token_of(raw.as_bytes()))).unwrap();
    assert_eq!(parts.link, "https://h/f");
    assert_eq!(parts.name, "My%40App%40com.a");
    assert_eq!(parts.version.as_deref(), Some("1.2"));
    let f = install_token_fields(&parts, None).unwrap();
    assert_eq!(fields(&f), ("https://h/f".to_string(), "com.a".to_string(), "1.2".to_string(), "My@App".to_string()));

    let plain = read_install_token(&token_of(b"u/Name")).unwrap();
    assert_eq!(plain.version, None);
    let f = install_token_fields(&plain, Some("com.real")).unwrap();
    assert_eq!(fields(&f), ("u".to_string(), "org.ipatool.Name".to_string(), "1.0".to_string(), "Name".to_string()));

    let placeholder = read_install_token(&token_of(b"u/App%40unknown.bundle/2/x")).unwrap();
    assert_eq!(placeholder.version.as_deref(), Some("2/x"));
    let f = install_token_fields(&placeholder, Some("com.real")).unwrap();
    assert_eq!(f.bundle_id, "com.real");
    let f = install_token_fields(&placeholder, Some(" ")).unwrap();
    assert_eq!(f.bundle_id, "unknown.bundle");
}

#[test]
fn install_token_refusals() {
    assert_eq!(read_install_token("!!!.plist").err(), Some(TokenProblem::Undecodable));
    assert_eq!(read_install_token(&token_of(&[0xff, 0x2f])).err(), Some(TokenProblem::NotUtf8));
    assert_eq!(read_install_token(&token_of(b"no-slash")).err(), Some(TokenProblem::Malformed));
    assert_eq!(read_install_token(&token_of(b"%E4/x")).err(), Some(TokenProblem::BadLink));
    let bad_name = read_install_token(&token_of(b"u/%FF/1")).unwrap();
    assert_eq!(install_token_fields(&bad_name, None).err(), Some(TokenProblem::BadName));
    let bad_version = read_install_token(&token_of(b"u/n/%FF")).unwrap();
    assert_eq!(install_token_fields(&bad_version, None).err(), Some(TokenProblem::BadVersion));
    assert_eq!(TokenProblem::Undecodable.message(), "invalid plist token");
    assert_eq!(TokenProblem::NotUtf8.message(), "invalid plist token encoding");
    assert_eq!(TokenProblem::Malformed.message(), "malformed plist token");
    assert_eq!(TokenProblem::BadLink.message(), "invalid url in plist token");
    assert_eq!(TokenProblem::BadName.message(), "invalid name in plist token");
    assert_eq!(TokenProblem::BadVersion.message(), "invalid version in plist token");
}

#[test]
fn record_install_link_token_reads_back() {
    let ok = inspection(true, true, false, 0, 0);
    let rec = record("We@Chat 微信", Some("com.tencent.xin"), Some("8.0 beta"), Some("/data/a.ipa"));
    let url = build_record_install_url("https://h", &rec, 7, Some(&ok), true, None).unwrap();
    let encoded = url.strip_prefix("itms-services://?action=download-manifest&url=").unwrap();
    let manifest = urlencoding::decode(encoded).unwrap().into_owned();
    let token = manifest.strip_prefix("https://h/i/").unwrap();
    let parts = read_install_token(token).unwrap();
    let f = install_token_fields(&parts, None).unwrap();
    assert_eq!(
        fields(&f),
        (
            "https://h/api/public/download-records/7/file".to_string(),
            "com.tencent.xin".to_string(),
            "8.0 beta".to_string(),
            "We@Chat 微信".to_string()
        )
    );
}

fn download_metadata() -> DownloadMetadata {
    DownloadMetadata {
        bundle_display_name: "App".to_string(),
        bundle_short_version_string: "3.1".to_string(),
        bundle_id: "com.a".to_string(),
        artwork_url: String::new(),
        artist_name: String::new(),
    }
}

#[test]
fn job_manifests() {
    let ok = inspection(true, true, false, 0, 0);
    let md = download_metadata();
    assert_eq!(
        refused(job_manifest_fields("j 1", "running", Some(&ok), true, Some(&md), "https://h")),
        (400, "任务尚未完成，无法生成 manifest".to_string())
    );
    let mut blocked = inspection(false, false, false, 0, 1);
    blocked.summary = "加密".to_string();
    assert_eq!(
        refused(job_manifest_fields("j", "ready", Some(&blocked), true, Some(&md), "https://h")),
        (403, "已拦截 manifest 生成：加密".to_string())
    );
    assert_eq!(
        refused(job_manifest_fields("j", "ready", None, false, Some(&md), "https://h")),
        (403, "已拦截 manifest 生成：该 IPA 不支持 OTA 安装".to_string())
    );
    assert_eq!(refused(job_manifest_fields("j", "ready", Some(&ok), true, None, "https://h")), (500, "任务缺少元数据".to_string()));
    let f = job_manifest_fields("j 1", "ready", Some(&ok), true, Some(&md), "https://h").unwrap();
    assert_eq!(
        fields(&f),
        ("https://h/api/public/download-file?jobId=j%201".to_string(), "com.a".to_string(), "3.1".to_string(), "App".to_string())
    );
}

#[test]
fn query_manifests() {
    let full = ManifestQuery {
        url: Some("https://x/a.ipa".to_string()),
        bundle_id: Some("com.a".to_string()),
        bundle_version: Some("1".to_string()),
        title: Some("A".to_string()),
        jobId: None,
    };
    let f = query_manifest_fields(&full).unwrap();
    assert_eq!(fields(&f), ("https://x/a.ipa".to_string(), "com.a".to_string(), "1".to_string(), "A".to_string()));
    let mut q = full.clone();
    q.title = None;
    assert_eq!(refused(query_manifest_fields(&q)), (400, "title 不能为空".to_string()));
    q.bundle_version = None;
    assert_eq!(refused(query_manifest_fields(&q)), (400, "bundle_version 不能为空".to_string()));
    q.bundle_id = None;
    assert_eq!(refused(query_manifest_fields(&q)), (400, "bundle_id 不能为空".to_string()));
    q.url = None;
    assert_eq!(refused(query_manifest_fields(&q)), (400, "url 不能为空".to_string()));
}

use ipatool::artifacts::{inferred_app_name, inferred_download_record, ipa_artifact_view};

fn ipa_meta() -> IpaMetadata {
    IpaMetadata {
        item_id: Some("999".to_string()),
        item_name: None,
        bundle_display_name: Some("Display".to_string()),
        bundle_id: Some("com.meta".to_string()),
        bundle_short_version: None,
        bundle_version: Some("77".to_string()),
        artist_name: Some("Meta Dev".to_string()),
        artist_id: None,
        genre: None,
        genre_id: None,
        release_date: None,
        copyright: None,
        icon_url: Some("https://m/icon.png".to_string()),
        has_iap: None,
        min_os_version: None,
        primary_icon_bytes: None,
    }
}

#[test]
fn ipa_file_views() {
    let ok = inspection(true, true, false, 0, 0);
    let rec = record("unknown", Some(""), Some("8.0"), Some("/d/x.ipa"));
    let meta = ipa_meta();
    let v = ipa_artifact_view("aWQ", "WeChat.ipa.ipa", 12, "/d/x.ipa", Some("2024".to_string()), Some(&rec), Some(&meta), Some(ok.clone()), "https://h", Some("com.tencent.xin".to_string()));
    assert_eq!(v.app_name, "Display");
    assert_eq!(v.app_id, "414478124");
    assert_eq!(v.bundle_id.as_deref(), Some("com.meta"));
    assert_eq!(v.version.as_deref(), Some("8.0"));
    assert_eq!(v.artwork_url.as_deref(), Some("https://m/icon.png"));
    assert_eq!(v.artist_name.as_deref(), Some("Meta Dev"));
    assert_eq!(v.account_email.as_deref(), Some("tester@example.com"));
    assert_eq!(v.record_id, Some(7));
    assert_eq!(v.download_url, "https://h/api/ipa-files/aWQ/download");
    assert!(v.ota_installable);
    assert_eq!(v.install_url, build_record_install_url("https://h", &rec, 7, Some(&ok), true, Some("com.tencent.xin".to_string())));

    let bare = ipa_artifact_view("i", "Some.ipa.ipa", 1, "/d/s.ipa", None, None, None, None, "https://h", None);
    assert_eq!(bare.app_name, "Some");
    assert_eq!(bare.app_id, "unknown");
    assert_eq!(bare.version, None);
    assert_eq!(bare.package_kind, "unknown");
    assert!(bare.install_url.is_none());

    assert_eq!(inferred_app_name("a.ipa"), "a");
    let r = inferred_download_record("App.ipa", "/d/App.ipa", 5, Some("2024-02-02".to_string()));
    assert_eq!((r.app_name.as_str(), r.app_id.as_str(), r.account_email.as_str(), r.status.as_str()), ("App", "unknown", "未知账号", "completed"));
    assert_eq!((r.file_size, r.progress), (Some(5), Some(100)));
}

use ipatool::artifacts::{upload_name_problem, upload_record, upload_size_after};

#[test]
fn uploads() {
    assert_eq!(upload_name_problem("App.IPA"), None);
    assert_eq!(upload_name_problem("app.zip"), Some("只能上传 .ipa 文件".to_string()));
    assert_eq!(upload_size_after(10, 5), Ok(15));
    assert_eq!(upload_size_after(2147483648, 0), Ok(2147483648));
    assert_eq!(upload_size_after(2147483648, 1), Err("上传文件不能超过 2GB".to_string()));
    assert_eq!(upload_size_after(u64::MAX, 5), Err("上传文件不能超过 2GB".to_string()));
    let ok = inspection(true, true, false, 0, 0);
    let r = upload_record("job", "My.ipa", "/d/uploads/job-My.ipa", 42, "now".to_string(), Some(&ok), Some("{}".to_string()));
    assert_eq!((r.app_name.as_str(), r.app_id.as_str(), r.account_email.as_str()), ("My", "uploaded", "手动上传"));
    assert_eq!(r.job_id.as_deref(), Some("job"));
    assert_eq!((r.package_kind.as_deref(), r.ota_installable, r.install_method.as_deref()), (Some("ota_sideloadable"), Some(true), Some("ota")));
    let r = upload_record("job", "x.ipa", "/p", 1, "now".to_string(), None, None);
    assert_eq!((r.package_kind.as_deref(), r.ota_installable, r.install_method.as_deref()), (Some("unknown"), Some(false), Some("manual_review")));
}

use ipatool::artifacts::download_record_view;

#[test]
fn download_record_views() {
    let ok = inspection(true, true, false, 0, 0);
    let rec = record("WeChat", Some("com.tencent.xin"), Some("8.0"), Some("/d/w.ipa"));
    let expected_install = build_record_install_url("https://h", &rec, 7, Some(&ok), true, None);
    let v = download_record_view(rec.clone(), Some(ok.clone()), true, "https://h", None);
    assert_eq!(v.download_url.as_deref(), Some("https://h/api/public/download-records/7/file"));
    assert_eq!(v.install_url, expected_install);
    assert!(v.install_url.is_some());
    assert_eq!((v.package_kind.as_str(), v.ota_installable, v.install_method.as_str()), ("ota_sideloadable", true, "ota"));
    assert_eq!(v.app_name, "WeChat");
    assert!(v.file_exists);
    let v = download_record_view(rec, None, false, "https://h", None);
    assert_eq!((v.package_kind.as_str(), v.ota_installable, v.install_method.as_str()), ("missing_file", false, "none"));
    assert!(v.install_url.is_none());
}
