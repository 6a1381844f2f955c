use ipatool::accounts::{apply_renewals, refresh_round, Renewal, SignedInAccount};
use ipatool::contribution::{prepared_contribution, IconFetch};
use ipatool::delisted::{ArchiveApp, ArchiveVersion};
use ipatool::api::apply_signatures_only;
use ipatool::metadata::extract_icon;
use ipatool::archive::{read_all_entries, store_entries};
use ipatool::download_flow::{
    completed_download, next_download_step, start_progress, step_progress, DownloadPackage, DownloadStage, DownloadStep,
};
use ipatool::download_jobs::{job_info_reply, JobInfoReply};
use ipatool::error::SigError;
use ipatool::jobs::JobState;
use ipatool::json::{JsonNode, JsonNumber};
use ipatool::naming::extract_app_id_from_pr_title;
use ipatool::passwords::hash_password;
use ipatool::purchases::{batch_purchase_answers, store_queries, CachedPurchase, PurchaseStatus};
use ipatool::records::{DownloadMetadata, DownloadRecord};
use ipatool::search::still_listed;
use ipatool::signing::replace_zip_entries;

fn text(s: &str) -> JsonNode {
    JsonNode::String(s.to_string())
}

fn num(v: i64) -> JsonNode {
    JsonNode::Number(JsonNumber { integer: Some(v as i128), real: v.to_string(), text: v.to_string(), whole: v })
}

fn members(items: Vec<(&str, JsonNode)>) -> Vec<(String, JsonNode)> {
    items.into_iter().map(|(k, v)| (k.to_string(), v)).collect()
}

fn entry(name: &str, data: &[u8]) -> (String, Vec<u8>) {
    (name.to_string(), data.to_vec())
}

fn strings(items: &[&str]) -> Vec<String> {
    items.iter().map(|s| s.to_string()).collect()
}

fn record(id: Option<i64>, progress: Option<i64>) -> DownloadRecord {
    DownloadRecord {
        id,
        job_id: Some("job-1".to_string()),
        app_name: "A".to_string(),
        app_id: "1".to_string(),
        bundle_id: Some("com.a".to_string()),
        version: Some("1.0".to_string()),
        account_email: "t@example.com".to_string(),
        account_region: None,
        download_date: None,
        status: "completed".to_string(),
        file_size: None,
        file_path: Some("/d/A.ipa".to_string()),
        install_url: None,
        artwork_url: None,
        artist_name: None,
        progress,
        error: None,
        package_kind: None,
        ota_installable: None,
        install_method: None,
        inspection_json: None,
        created_at: None,
    }
}

#[test]
fn written_archive_reads_back_as_its_entries() {
    let entries = vec![entry("a.txt", b"one"), entry("dir/b.bin", &[0, 1, 2, 3])];
    let bytes = store_entries(&entries).unwrap();
    assert_eq!(read_all_entries(&bytes).unwrap(), entries);
}

#[test]
fn replaced_archive_keeps_other_entries_and_appends_replacements() {
    let mut archive = store_entries(&[entry("keep.txt", b"k"), entry("swap.txt", b"old"), entry("last.txt", b"l")]).unwrap();
    replace_zip_entries(&mut archive, &[entry("swap.txt", b"new"), entry("added.txt", b"+")]).unwrap();
    assert_eq!(
        read_all_entries(&archive).unwrap(),
        vec![entry("keep.txt", b"k"), entry("last.txt", b"l"), entry("swap.txt", b"new"), entry("added.txt", b"+")]
    );
}

#[test]
fn entry_names_too_long_for_a_zip_header_are_refused() {
    let long = "n".repeat(70_000);
    assert_eq!(store_entries(&[entry(&long, b"x")]), Err("entry name longer than 65535 bytes".to_string()));
    let fits = "n".repeat(65_535);
    let bytes = store_entries(&[entry(&fits, b"x")]).unwrap();
    assert_eq!(read_all_entries(&bytes).unwrap()[0].0.len(), 65_535);

    let mut archive = store_entries(&[entry("a", b"1")]).unwrap();
    match replace_zip_entries(&mut archive, &[entry(&long, b"x")]) {
        Err(SigError::Archive(m)) => assert_eq!(m, "entry name longer than 65535 bytes"),
        other => panic!("unexpected {:?}", other),
    }
    assert!(archive.is_empty());
}

#[test]
fn repeated_entry_names_are_refused_by_the_writer() {
    assert!(store_entries(&[entry("same", b"1"), entry("same", b"2")]).is_err());
}

#[test]
fn signatures_only_keeps_metadata_and_untouched_entries() {
    let ipa = store_entries(&[
        entry("Payload/Test.app/Info.plist", b"not a plist"),
        entry("Payload/Test.app/Test", b"exe"),
        entry("iTunesMetadata.plist", b"meta"),
    ])
    .unwrap();
    let song = "{\"sinfs\":[{\"id\":0,\"sinf\":\"c2luZg==\"}]}";
    let (result, bytes) = apply_signatures_only(ipa.clone(), song, "t@example.com").unwrap();
    assert!(result.applied_paths.is_empty());
    assert_eq!(bytes, ipa);
    let back = read_all_entries(&bytes).unwrap();
    assert!(back.contains(&entry("iTunesMetadata.plist", b"meta")));
}

#[test]
fn pull_request_titles_give_the_first_parenthesised_digits() {
    assert_eq!(extract_app_id_from_pr_title("feat: add delisted app Foo (Lite) (1)"), Some("1".to_string()));
    assert_eq!(extract_app_id_from_pr_title("feat: add delisted app Foo (123)"), Some("123".to_string()));
    assert_eq!(extract_app_id_from_pr_title("x (77) (88)"), Some("77".to_string()));
    assert_eq!(extract_app_id_from_pr_title("(4a)"), None);
    assert_eq!(extract_app_id_from_pr_title("()"), None);
    assert_eq!(extract_app_id_from_pr_title("((42))"), Some("42".to_string()));
    assert_eq!(extract_app_id_from_pr_title("no id"), None);
}

#[test]
fn icon_falls_back_to_the_largest_app_icon() {
    let mut png = vec![0x89, 0x50, 0x4E, 0x47, 0x0D, 0x0A, 0x1A, 0x0A];
    png.extend(std::iter::repeat(0u8).take(56));
    let ipa = store_entries(&[entry("Payload/X.app/", b""), entry("Payload/X.app/AppIcon60x60@2x.png", &png)]).unwrap();
    assert_eq!(extract_icon(&ipa), png);
    assert!(extract_icon(b"not a zip").is_empty());
}

#[test]
fn job_information_answers_not_found_and_lookup_failures() {
    let missing = job_info_reply("job-x", None, &Ok(None), None, None, false, false, "https://h", None);
    assert_eq!(missing.http_status(), 404);
    match missing {
        JobInfoReply::NotFound(m) => assert_eq!(m, "任务不存在"),
        other => panic!("unexpected {:?}", other),
    }
    let failed = job_info_reply("job-x", None, &Err("disk".to_string()), None, None, false, false, "https://h", None);
    assert_eq!(failed.http_status(), 500);
    match failed {
        JobInfoReply::LookupFailed(m) => assert_eq!(m, "读取任务记录失败：disk"),
        other => panic!("unexpected {:?}", other),
    }
    let stored = job_info_reply("job-1", None, &Ok(Some(record(Some(7), Some(40)))), None, None, false, false, "https://h", None);
    assert_eq!(stored.http_status(), 200);
    match stored {
        JobInfoReply::Found(info) => {
            assert_eq!((info.status.as_str(), info.stage.as_str(), info.progress), ("failed", "missing-file", 40));
            assert!(info.download_url.is_none());
        },
        other => panic!("unexpected {:?}", other),
    }
    let mut job = JobState::new("job-2".to_string());
    job.set_running();
    let live = job_info_reply("job-2", Some(&job), &Ok(None), None, None, false, false, "https://h", None);
    match live {
        JobInfoReply::Found(info) => assert_eq!(info.status, "running"),
        other => panic!("unexpected {:?}", other),
    }
}

fn answer(purchased: bool, needs: bool, status: &str, error: Option<&str>) -> PurchaseStatus {
    PurchaseStatus { purchased, needs_purchase: needs, status: status.to_string(), error: error.map(str::to_string) }
}

#[test]
fn batch_purchase_answers_one_entry_per_requested_app() {
    let appids = strings(&["1", "2", "3", "1", "4", "4"]);
    let owned = strings(&["1"]);
    let cached = vec![
        CachedPurchase { appid: "2".to_string(), purchased: false, needs_purchase: true, age_seconds: 10 },
        CachedPurchase { appid: "3".to_string(), purchased: true, needs_purchase: false, age_seconds: 300 },
    ];
    let queries = store_queries(&appids, &owned, &cached);
    assert_eq!(queries, strings(&["3", "4", "4"]));
    let answers = vec![
        answer(true, false, "owned", None),
        answer(false, false, "error", Some("查询失败: a")),
        answer(false, true, "not_owned", Some("not owned")),
    ];
    let out = batch_purchase_answers(&appids, &owned, &cached, &answers);
    let keys: Vec<&str> = out.iter().map(|(k, _)| k.as_str()).collect();
    assert_eq!(keys, vec!["1", "2", "3", "4"]);
    assert_eq!(out[0].1.status, "owned");
    assert_eq!((out[1].1.purchased, out[1].1.needs_purchase, out[1].1.status.as_str()), (false, true, "not_owned"));
    assert_eq!(out[2].1.status, "owned");
    assert_eq!(out[3].1.error.as_deref(), Some("not owned"));
}

#[test]
fn session_stop_reports_auth_then_session() {
    let reply = members(vec![("_state", text("failure")), ("failureType", text("Session expired"))]);
    let step = next_download_step(DownloadStage::Query, true, &reply);
    assert!(matches!(step, DownloadStep::Stop(_)));
    assert_eq!(start_progress().phase, "auth");
    let note = step_progress(DownloadStage::Query, &step).unwrap();
    assert_eq!(note.phase, "session");
    assert_eq!(note.message, "[session] 检测到会话失效，尝试刷新...");
    assert!(step_progress(DownloadStage::Query, &DownloadStep::Fetch).is_none());
    assert_eq!(step_progress(DownloadStage::Query, &DownloadStep::Purchase).unwrap().message, "[purchase] 正在购买应用...");
}

#[test]
fn completed_download_is_a_consistent_success() {
    let package = DownloadPackage {
        file_url: "https://cdn/x".to_string(),
        file_name: "WeChat_8.0@com.tencent.xin.ipa".to_string(),
        metadata: DownloadMetadata {
            bundle_display_name: "WeChat".to_string(),
            bundle_short_version_string: "8.0".to_string(),
            bundle_id: "com.tencent.xin".to_string(),
            artwork_url: String::new(),
            artist_name: String::new(),
        },
    };
    let r = completed_download("/downloads", &package);
    assert!(r.ok && r.error.is_none() && !r.needs_reauth && !r.needs_purchase);
    assert_eq!(r.file.as_deref(), Some("/downloads/WeChat_8.0@com.tencent.xin.ipa"));
    assert_eq!(r.metadata.unwrap().bundle_id, "com.tencent.xin");
    assert_eq!(completed_download("/downloads/", &package).file.as_deref(), Some("/downloads/WeChat_8.0@com.tencent.xin.ipa"));
}

#[test]
fn store_lookup_counts_as_listed_only_with_results() {
    let body = JsonNode::Object(members(vec![("resultCount", num(1))]));
    assert!(still_listed(true, Some(&body)));
    assert!(!still_listed(false, Some(&body)));
    assert!(!still_listed(true, None));
    assert!(!still_listed(true, Some(&JsonNode::Object(members(vec![("resultCount", num(0))])))));
    assert!(!still_listed(true, Some(&JsonNode::Object(members(vec![("resultCount", text("1"))])))));
}

#[test]
fn refresh_round_takes_due_accounts_with_saved_credentials() {
    let account = |token: &str, email: &str, auth: bool, secs: u64| SignedInAccount {
        token: token.to_string(),
        email: email.to_string(),
        has_auth_info: auth,
        secs_since_sign_in: secs,
    };
    let accounts = vec![
        account("t1", "a@x", true, 1800),
        account("t2", "b@x", true, 1799),
        account("t3", "c@x", false, 4000),
        account("t4", "d@x", true, 4000),
    ];
    let saved = strings(&["a@x", "b@x", "c@x"]);
    assert_eq!(refresh_round(&accounts, &saved), vec![("t1".to_string(), "a@x".to_string())]);
}

#[test]
fn password_hash_is_sixty_bytes_of_bcrypt() {
    let h = hash_password("admin123").unwrap();
    assert_eq!(h.len(), 60);
    assert!(h.starts_with("$2b$12$"));
    assert!(bcrypt::verify("admin123", &h).unwrap());
}

#[test]
fn unknown_tokens_are_refused() {
    let tokens = strings(&["t1", "t2"]);
    assert_eq!(ipatool::accounts::account_for_token(&tokens, "t2"), Ok(1));
    assert_eq!(ipatool::accounts::account_for_token(&tokens, "t3"), Err("无效的 token".to_string()));
}

fn corrupt(bytes: &mut Vec<u8>, from: &[u8], to: &[u8]) {
    let at = bytes.windows(from.len()).position(|w| w == from).unwrap();
    bytes[at..at + from.len()].copy_from_slice(to);
}

#[test]
fn replaced_entries_are_never_read() {
    let mut archive = store_entries(&[entry("keep.txt", b"k"), entry("swap.txt", b"oldoldold")]).unwrap();
    corrupt(&mut archive, b"oldoldold", b"OLDOLDOLD");
    assert!(read_all_entries(&archive).is_err());
    let mut unreadable = archive.clone();
    assert!(replace_zip_entries(&mut unreadable, &[entry("other.txt", b"x")]).is_err());
    replace_zip_entries(&mut archive, &[entry("swap.txt", b"new")]).unwrap();
    assert_eq!(read_all_entries(&archive).unwrap(), vec![entry("keep.txt", b"k"), entry("swap.txt", b"new")]);
}

#[test]
fn profile_uses_the_given_identifiers() {
    let profile = ipatool::ota::mobileconfig_with_ids(
        "https://h/m.plist".to_string(),
        "App".to_string(),
        "id-0".to_string(),
        "id-1".to_string(),
        "id-2".to_string(),
        "id-3".to_string(),
    )
    .unwrap();
    assert!(profile.contains("<string>com.ipatool.install.id-0</string>"));
    assert!(profile.contains("<string>id-1</string>"));
    assert!(profile.contains("<string>com.ipatool.config.id-2</string>"));
    assert!(profile.contains("<string>id-3</string>"));
    assert!(profile.contains("itms-services://?action=download-manifest&amp;url=https%3A%2F%2Fh%2Fm.plist"));
}

#[test]
fn renewals_replace_only_successful_sign_ins_of_present_tokens() {
    let ok = || members(vec![("_state", text("success"))]);
    let bad = members(vec![("_state", text("failure"))]);
    let mut table = vec![("t1".to_string(), 1u32), ("t2".to_string(), 2u32), ("t3".to_string(), 3u32)];
    apply_renewals(
        &mut table,
        vec![
            Renewal { token: "t1".to_string(), reply: ok(), account: 10 },
            Renewal { token: "t2".to_string(), reply: bad, account: 20 },
            Renewal { token: "t9".to_string(), reply: ok(), account: 90 },
            Renewal { token: "t1".to_string(), reply: ok(), account: 11 },
        ],
    );
    assert_eq!(table, vec![("t1".to_string(), 11), ("t2".to_string(), 2), ("t3".to_string(), 3)]);
}

#[test]
fn prepared_contribution_composes_entry_versions_warnings_and_icon() {
    let app = ArchiveApp {
        id: "123456".to_string(),
        name: "App".to_string(),
        icon_url: Some("https://i/a.png".to_string()),
        icon_bak_url: None,
        icon_base64: None,
        icon_content_type: None,
        bundle_id: None,
        artist_name: Some("Dev".to_string()),
        versions: vec![ArchiveVersion {
            version_id: "1".to_string(),
            version: "1.0".to_string(),
            description: None,
            released_at: None,
            size_bytes: None,
        }],
        delisted: true,
        added_at: String::new(),
        added_by: "user".to_string(),
    };
    let timbrd = vec![JsonNode::Object(members(vec![
        ("bundle_version", text("2.0")),
        ("external_identifier", text("2")),
        ("size", num(5)),
    ]))];
    let r = prepared_contribution(
        "123456",
        &app,
        "local-archive".to_string(),
        vec![],
        vec!["CN".to_string()],
        "now".to_string(),
        Some(&timbrd),
        None,
        true,
        Some(IconFetch::Bytes(vec![1, 2, 3])),
    );
    assert_eq!(r.app_id, "123456");
    assert_eq!(r.icon_path.as_deref(), Some("assets/icons/12/123456.png"));
    assert_eq!(r.icon_data_url.as_deref(), Some("data:image/png;base64,AQID"));
    let versions: Vec<&str> = r.app.versions.iter().map(|v| v.version.as_str()).collect();
    assert_eq!(versions, vec!["2.0", "1.0"]);
    assert_eq!(r.warnings, vec!["缺少 bundle_id，建议手动补充".to_string()]);
    let failed = prepared_contribution(
        "123456", &app, "x".to_string(), vec![], vec![], "now".to_string(), None, None, false,
        Some(IconFetch::BadStatus("404 Not Found".to_string())),
    );
    assert!(failed.icon_data_url.is_none());
    assert_eq!(failed.warnings.last().map(String::as_str), Some("图标下载返回 404 Not Found"));
}

#[test]
fn listed_icon_and_inspection_use_the_given_names() {
    let mut png = vec![0x89, 0x50, 0x4E, 0x47, 0x0D, 0x0A, 0x1A, 0x0A];
    png.extend(std::iter::repeat(0u8).take(8));
    let ipa = store_entries(&[entry("Payload/X.app/AppIcon60x60@2x.png", &png)]).unwrap();
    let names = strings(&["Payload/X.app/AppIcon60x60@2x.png"]);
    assert_eq!(ipatool::metadata::app_icon_of_listed(&ipa, &names), Some(png));
    assert!(ipatool::metadata::app_icon_of_listed(&ipa, &strings(&["other"])).is_none());
    assert!(matches!(ipatool::inspection::inspect_listed(&ipa, &strings(&["x"])), Err(SigError::NoAppBundle)));
}
