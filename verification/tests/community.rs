use ipatool::contribution::{
    archive_app_from_candidate, archive_countries, array_history, entry_commit_message, entry_from_archive,
    entry_warnings, enrich_versions, enveloped_history, icon_asset_path, icon_commit_message, icon_data_url, icon_source,
    prepare_app_id, publish_app_id, pull_request_body, pull_request_title, sort_newest_first, IconSource,
};
use ipatool::delisted::{
    archive_without_version, finish_delisted_candidates, group_delisted_candidates, lite_index_count, lite_index_frame,
    requested_archive_entry, AddArchiveRequest, ArchiveApp, ArchiveVersion, ListedRecord, LocalDelistedCandidate,
};
use ipatool::json::{JsonNode, JsonNumber};
use ipatool::records::{CommunityDelistedAppDetail, CommunityVersion, DownloadRecord};
use ipatool::versions_order::{parse_u32, version_key};

fn text(s: &str) -> JsonNode {
    JsonNode::String(s.to_string())
}

fn num(v: i64) -> JsonNode {
    JsonNode::Number(JsonNumber { integer: Some(v as i128), real: v.to_string(), text: v.to_string(), whole: v })
}

fn object(members: Vec<(&str, JsonNode)>) -> JsonNode {
    JsonNode::Object(members.into_iter().map(|(k, v)| (k.to_string(), v)).collect())
}

fn record(app_id: &str, status: &str, region: Option<&str>) -> DownloadRecord {
    DownloadRecord {
        id: Some(1),
        job_id: None,
        app_name: String::new(),
        app_id: app_id.to_string(),
        bundle_id: None,
        version: None,
        account_email: "a@b.c".to_string(),
        account_region: region.map(str::to_string),
        download_date: None,
        status: status.to_string(),
        file_size: None,
        file_path: None,
        install_url: None,
        artwork_url: None,
        artist_name: None,
        progress: None,
        error: None,
        package_kind: None,
        ota_installable: None,
        install_method: None,
        inspection_json: None,
        created_at: None,
    }
}

fn listed(record: DownloadRecord, version_id: Option<&str>, delisted: Option<bool>) -> ListedRecord {
    ListedRecord { record, app_version_id: version_id.map(str::to_string), delisted }
}

fn version(id: &str, label: &str) -> ArchiveVersion {
    ArchiveVersion { version_id: id.to_string(), version: label.to_string(), description: None, released_at: None, size_bytes: None }
}

fn candidate(id: &str, date: Option<&str>) -> LocalDelistedCandidate {
    LocalDelistedCandidate {
        id: id.to_string(),
        name: id.to_string(),
        bundle_id: None,
        icon_url: None,
        artist_name: None,
        versions: Vec::new(),
        last_download_date: date.map(str::to_string),
        source_record_count: Some(1),
        already_archived_locally: false,
        countries: Vec::new(),
    }
}

#[test]
fn delisted_downloads_group_by_app() {
    let mut first = record("100", "Completed", Some(" cn "));
    first.version = Some("1.0".to_string());
    first.download_date = Some("2024-01-02".to_string());
    first.bundle_id = Some("com.a".to_string());
    let mut second = record("100", "completed", Some("US"));
    second.app_name = "App".to_string();
    second.version = Some("1.1".to_string());
    second.job_id = Some("job-9".to_string());
    second.file_size = Some(42);
    let mut third = record("100", "completed", Some("cn"));
    third.version = Some("1.0".to_string());
    let records = vec![
        listed(first, Some("v1"), Some(true)),
        listed(record("200", "completed", None), None, Some(false)),
        listed(record("300", "failed", None), None, Some(true)),
        listed(record("  ", "completed", None), None, Some(true)),
        listed(second, Some(" "), Some(true)),
        listed(third, Some("v1"), Some(true)),
        listed(record("400", "COMPLETED", None), None, Some(true)),
    ];
    let groups = group_delisted_candidates(&records, &vec!["400".to_string()]);
    assert_eq!(groups.len(), 2);
    let a = &groups[0];
    assert_eq!(a.id, "100");
    assert_eq!(a.name, "App");
    assert_eq!(a.bundle_id.as_deref(), Some("com.a"));
    assert_eq!(a.last_download_date.as_deref(), Some("2024-01-02"));
    assert_eq!(a.source_record_count, Some(3));
    assert_eq!(a.countries, vec!["CN".to_string(), "US".to_string()]);
    let ids: Vec<(&str, &str)> = a.versions.iter().map(|v| (v.version_id.as_str(), v.version.as_str())).collect();
    assert_eq!(ids, vec![("v1", "1.0"), ("job-9", "1.1")]);
    assert_eq!(a.versions[1].size_bytes, Some(42));
    assert_eq!(a.versions[0].description.as_deref(), Some("由本地下载记录聚合"));
    assert!(!a.already_archived_locally);
    let b = &groups[1];
    assert_eq!(b.id, "400");
    assert!(b.already_archived_locally);
    assert!(b.versions.is_empty());
}

#[test]
fn delisted_candidates_are_kept_and_sorted() {
    let mut records = Vec::new();
    for (id, path) in [("a", Some("/x/a.ipa")), ("b", Some(" ")), ("c", Some("/x/c.ipa")), ("d", Some("/x/d.ipa")), ("e", Some("/x/e.ipa"))] {
        let mut r = record(id, "completed", None);
        r.file_path = path.map(str::to_string);
        records.push(listed(r, None, Some(true)));
    }
    let exists = vec![true, true, true, false, true];
    let mut archived = candidate("e", Some("2024-09-01"));
    archived.already_archived_locally = true;
    let mut with_country = candidate("c", None);
    with_country.countries = vec!["JP".to_string()];
    let cands = vec![
        candidate("a", Some("2024-01-01")),
        candidate("b", Some("2024-05-01")),
        with_country,
        candidate("d", Some("2024-03-01")),
        archived,
        candidate("f", Some("2024-12-01")),
    ];
    let mut blank = ArchiveApp {
        id: "a".to_string(),
        name: "Alpha".to_string(),
        icon_url: Some("https://i/a.png".to_string()),
        icon_bak_url: None,
        icon_base64: None,
        icon_content_type: None,
        bundle_id: None,
        artist_name: None,
        versions: Vec::new(),
        delisted: true,
        added_at: String::new(),
        added_by: "user".to_string(),
    };
    blank.name = "Alpha".to_string();
    let archives = vec![Some(blank), None, None, None, None, None];
    let on_store = vec![false, false, false, false, false, false];
    let kept = finish_delisted_candidates(&cands, &archives, &on_store, &records, &exists);
    let ids: Vec<&str> = kept.iter().map(|c| c.id.as_str()).collect();
    assert_eq!(ids, vec!["a", "c"]);
    assert_eq!(kept[0].icon_url.as_deref(), Some("https://i/a.png"));
    assert_eq!(kept[0].name, "a");
    assert_eq!(kept[0].countries, vec!["CN".to_string()]);
    assert_eq!(kept[1].countries, vec!["JP".to_string()]);

    let on_store = vec![true, false, false, false, false, false];
    let kept = finish_delisted_candidates(&cands, &vec![None, None, None, None, None, None], &on_store, &records, &exists);
    let ids: Vec<&str> = kept.iter().map(|c| c.id.as_str()).collect();
    assert_eq!(ids, vec!["c"]);
}

#[test]
fn delisted_candidates_latest_first() {
    let mut records = Vec::new();
    for id in ["a", "b", "c", "d"] {
        let mut r = record(id, "completed", None);
        r.file_path = Some(format!("/x/{id}.ipa"));
        records.push(listed(r, None, Some(true)));
    }
    let cands = vec![candidate("a", Some("2024-01-01")), candidate("b", None), candidate("c", Some("2024-12-31")), candidate("d", Some("2024-06-15"))];
    let kept = finish_delisted_candidates(&cands, &vec![None, None, None, None], &vec![false; 4], &records, &vec![true; 4]);
    let ids: Vec<&str> = kept.iter().map(|c| c.id.as_str()).collect();
    assert_eq!(ids, vec!["c", "d", "a", "b"]);
}

#[test]
fn contribution_app_ids() {
    assert_eq!(publish_app_id(" 123 "), Ok("123".to_string()));
    assert_eq!(publish_app_id("  "), Err("app_id 不能为空".to_string()));
    assert_eq!(publish_app_id("12a"), Err("app_id 必须是数字 Apple ID".to_string()));
    assert_eq!(prepare_app_id("12a"), Ok("12a".to_string()));
    assert_eq!(prepare_app_id(""), Err("app_id 不能为空".to_string()));
}

#[test]
fn icon_asset_paths() {
    assert_eq!(icon_asset_path("1234"), "assets/icons/12/1234.png");
    assert_eq!(icon_asset_path("7"), "assets/icons/7/7.png");
    assert_eq!(icon_asset_path("é1"), "assets/icons/é/é1.png");
    assert_eq!(icon_asset_path("ab中"), "assets/icons/ab/ab中.png");
}

#[test]
fn archive_countries_from_records() {
    let records = vec![
        record("1", "completed", Some(" us ")),
        record("1", "Completed", Some("jp")),
        record("1", "failed", Some("de")),
        record("2", "completed", Some("fr")),
        record("1", "completed", Some("US")),
        record("1", "completed", Some("  ")),
    ];
    assert_eq!(archive_countries(&records, "1"), vec!["US".to_string(), "JP".to_string()]);
    assert_eq!(archive_countries(&records, "3"), vec!["CN".to_string()]);
}

fn archive_app(added_by: &str) -> ArchiveApp {
    ArchiveApp {
        id: "123".to_string(),
        name: "App".to_string(),
        icon_url: None,
        icon_bak_url: None,
        icon_base64: None,
        icon_content_type: None,
        bundle_id: Some("com.a".to_string()),
        artist_name: None,
        versions: vec![ArchiveVersion {
            version_id: "9".to_string(),
            version: "2.0".to_string(),
            description: Some("d".to_string()),
            released_at: Some("2020".to_string()),
            size_bytes: Some(10),
        }],
        delisted: true,
        added_at: "2020-01-01".to_string(),
        added_by: added_by.to_string(),
    }
}

#[test]
fn entries_from_archive_and_candidates() {
    let d = entry_from_archive(&archive_app("bob"), None, Some("assets/icons/12/123.png".to_string()), vec!["n".to_string()], vec!["CN".to_string()], "now".to_string());
    assert_eq!(d.artist_name.as_deref(), Some("bob"));
    assert_eq!(d.versions.len(), 1);
    assert_eq!(d.versions[0].source, "local");
    assert_eq!(d.versions[0].size_bytes, Some(10));
    assert_eq!(d.updated_at, "now");
    assert!(d.delisted && d.icon_url.is_none());
    let d = entry_from_archive(&archive_app("user"), None, None, Vec::new(), Vec::new(), "now".to_string());
    assert_eq!(d.artist_name, None);
    let d = entry_from_archive(&archive_app("user"), Some("Dev".to_string()), None, Vec::new(), Vec::new(), "now".to_string());
    assert_eq!(d.artist_name.as_deref(), Some("Dev"));

    let mut c = candidate("55", None);
    c.versions = vec![version("v", "1")];
    let a = archive_app_from_candidate(&c, "2025".to_string());
    assert_eq!(a.added_at, "2025");
    assert_eq!(a.added_by, "local-download-records");
    assert!(a.delisted);
    assert_eq!(a.versions.len(), 1);
    let c = candidate("55", Some("2023"));
    assert_eq!(archive_app_from_candidate(&c, "2025".to_string()).added_at, "2023");
}

fn detail(bundle: Option<&str>, notes: Vec<&str>, versions: Vec<(&str, Option<i64>)>) -> CommunityDelistedAppDetail {
    CommunityDelistedAppDetail {
        id: "123".to_string(),
        name: "App".to_string(),
        bundle_id: bundle.map(str::to_string),
        artist_name: None,
        icon_asset: None,
        icon_url: None,
        delisted: true,
        notes: notes.into_iter().map(str::to_string).collect(),
        countries: vec!["CN".to_string()],
        versions: versions
            .into_iter()
            .map(|(v, size)| CommunityVersion {
                version_id: String::new(),
                version: v.to_string(),
                released_at: None,
                size_bytes: size,
                description: None,
                source: "local".to_string(),
            })
            .collect(),
        updated_at: String::new(),
    }
}

#[test]
fn pull_request_texts() {
    let d = detail(None, vec!["a", "b"], vec![("1.0", Some(5)), ("2.0", None)]);
    assert_eq!(entry_commit_message(&d), "Add delisted app: App (123)");
    assert_eq!(icon_commit_message(&d), "Add icon for App (123)");
    assert_eq!(pull_request_title(&d), "feat: add delisted app App (123)");
    assert_eq!(
        pull_request_body(&d, "local-archive"),
        "## Summary\n\n- **App**: App (123)\n- **Bundle ID**: unknown\n- **Versions**: 2\n- **Source**: local-archive\n\n## Notes\na\nb\n\n## Versions\n- 1.0 (5 bytes)\n- 2.0"
    );
    let d = detail(Some("com.a"), vec![], vec![]);
    assert_eq!(
        pull_request_body(&d, "download-records"),
        "## Summary\n\n- **App**: App (123)\n- **Bundle ID**: com.a\n- **Versions**: 0\n- **Source**: download-records\n\n## Versions\n"
    );
}

#[test]
fn contribution_warnings_and_icons() {
    let d = detail(None, vec![], vec![]);
    assert_eq!(
        entry_warnings(&d, true),
        vec!["缺少 bundle_id，建议手动补充".to_string(), "缺少 artist_name（开发者名称）".to_string(), "没有版本信息".to_string()]
    );
    let mut d = detail(Some("com.a"), vec![], vec![("1", None)]);
    d.artist_name = Some("x".to_string());
    assert_eq!(entry_warnings(&d, false), vec!["所有版本均无 size_bytes".to_string(), "无法构建 icon 路径".to_string()]);
    let d = detail(Some("com.a"), vec![], vec![("1", Some(3))]);
    assert_eq!(entry_warnings(&d, true), vec!["缺少 artist_name（开发者名称）".to_string()]);

    assert!(matches!(icon_source(Some("https://x/i.png")), IconSource::Fetch(u) if u == "https://x/i.png"));
    assert!(matches!(icon_source(Some("data:image/png;base64,AA")), IconSource::Inline(u) if u == "data:image/png;base64,AA"));
    assert!(matches!(icon_source(Some("ftp://x")), IconSource::Unused));
    assert!(matches!(icon_source(None), IconSource::Missing(w) if w == "缺少图标 URL"));
    assert_eq!(icon_data_url(&[1, 2, 3]), "data:image/png;base64,AQID");
}

#[test]
fn version_keys_and_numbers() {
    let cs = |s: &str| s.chars().collect::<Vec<char>>();
    assert_eq!(parse_u32(&cs("42")), Some(42));
    assert_eq!(parse_u32(&cs("+7")), Some(7));
    assert_eq!(parse_u32(&cs("-0")), None);
    assert_eq!(parse_u32(&cs("")), None);
    assert_eq!(parse_u32(&cs("4294967295")), Some(4294967295));
    assert_eq!(parse_u32(&cs("4294967296")), None);
    assert_eq!(version_key("1.10.2"), vec![1, 10, 2]);
    assert_eq!(version_key("2.x.3."), vec![2, 3]);
    assert_eq!(version_key(""), Vec::<u32>::new());
}

fn community_version(v: &str, source: &str) -> CommunityVersion {
    CommunityVersion {
        version_id: String::new(),
        version: v.to_string(),
        released_at: None,
        size_bytes: None,
        description: None,
        source: source.to_string(),
    }
}

#[test]
fn versions_enriched_from_histories_and_sorted() {
    let local = vec![community_version("1.0", "local"), community_version("1.2", "local")];
    let timbrd = vec![
        object(vec![("bundle_version", text("2.0")), ("external_identifier", text("x9")), ("size", num(5)), ("created_at", text("2021"))]),
        object(vec![("bundle_version", text("1.0"))]),
        object(vec![("bundle_version", text(""))]),
        object(vec![("external_identifier", num(3))]),
    ];
    let bilin = vec![object(vec![("bundle_version", text("1.10")), ("external_identifier", num(8))]), object(vec![("bundle_version", text("2.0"))])];
    let out = enrich_versions(&local, Some(&timbrd), Some(&bilin));
    let seen: Vec<(&str, &str)> = out.iter().map(|v| (v.version.as_str(), v.source.as_str())).collect();
    assert_eq!(seen, vec![("2.0", "timbrd"), ("1.10", "bilin"), ("1.2", "local"), ("1.0", "local")]);
    assert_eq!(out[0].version_id, "x9");
    assert_eq!(out[0].size_bytes, Some(5));
    assert_eq!(out[0].released_at.as_deref(), Some("2021"));
    assert_eq!(out[1].version_id, "");

    let stable = sort_newest_first(&vec![community_version("1.0", "a"), community_version("1.0", "b"), community_version("1.0.0", "c")]);
    let seen: Vec<(&str, &str)> = stable.iter().map(|v| (v.version.as_str(), v.source.as_str())).collect();
    assert_eq!(seen, vec![("1.0.0", "c"), ("1.0", "a"), ("1.0", "b")]);

    let items = JsonNode::Array(vec![num(1)]);
    assert_eq!(array_history(&items).map(|v| v.len()), Some(1));
    assert!(array_history(&num(1)).is_none());
    let ok = object(vec![("code", num(0)), ("data", JsonNode::Array(vec![num(1), num(2)]))]);
    assert_eq!(enveloped_history(&ok).map(|v| v.len()), Some(2));
    let failed = object(vec![("code", num(1)), ("data", JsonNode::Array(vec![]))]);
    assert!(enveloped_history(&failed).is_none());
}

#[test]
fn archive_entries_take_requests() {
    let req = AddArchiveRequest {
        app_id: "123".to_string(),
        app_name: "New".to_string(),
        icon_url: None,
        bundle_id: Some("com.new".to_string()),
        artist_name: None,
        versions: vec![
            ArchiveVersion { version_id: "9".to_string(), version: " ".to_string(), description: None, released_at: None, size_bytes: Some(77) },
            version("", "x"),
            version("10", "3.0"),
        ],
    };
    let existing = archive_app("bob");
    let a = requested_archive_entry(&req, Some(&existing), "now".to_string());
    assert_eq!(a.name, "New");
    assert_eq!(a.bundle_id.as_deref(), Some("com.new"));
    assert_eq!(a.added_at, "2020-01-01");
    assert_eq!(a.added_by, "bob");
    assert_eq!(a.versions.len(), 2);
    assert_eq!(a.versions[0].version, "2.0");
    assert_eq!(a.versions[0].description, None);
    assert_eq!(a.versions[0].released_at.as_deref(), Some("2020"));
    assert_eq!(a.versions[0].size_bytes, Some(77));
    assert_eq!(a.versions[1].version_id, "10");
    let fresh = requested_archive_entry(&req, None, "now".to_string());
    assert_eq!(fresh.added_at, "now");
    assert_eq!(fresh.added_by, "user");
    assert!(!fresh.delisted);
    assert_eq!(fresh.versions.len(), 2);

    let trimmed = archive_without_version(a, "9").unwrap();
    assert_eq!(trimmed.versions.len(), 1);
    assert!(archive_without_version(trimmed, "10").is_none());
}

#[test]
fn lite_index_frames() {
    let flat = JsonNode::Array(vec![num(1), num(2)]);
    let f = lite_index_frame(&flat).unwrap();
    assert_eq!((f.entries.len(), f.schema_version, f.source.as_deref(), f.declared_count), (2, 1, Some("flat-array"), 0));
    let wrapped = object(vec![
        ("apps", JsonNode::Array(vec![num(1)])),
        ("generated_at", text("2024")),
        ("schema_version", num(2)),
        ("count", num(5)),
    ]);
    let f = lite_index_frame(&wrapped).unwrap();
    assert_eq!((f.entries.len(), f.schema_version, f.source.as_deref(), f.declared_count), (1, 2, None, 5));
    assert_eq!(f.generated_at.as_deref(), Some("2024"));
    assert_eq!(lite_index_count(1, f.declared_count), 5);
    assert_eq!(lite_index_count(7, 5), 7);
    assert!(lite_index_frame(&object(vec![("apps", num(1))])).is_none());
    assert!(lite_index_frame(&text("x")).is_none());
}

use ipatool::contribution::ids_in_review;
use ipatool::search::{search_results, search_url};

#[test]
fn contributions_in_review() {
    let reply = object(vec![(
        "items",
        JsonNode::Array(vec![
            object(vec![("title", text("feat: add delisted app A (123)"))]),
            object(vec![("title", text("fix typo"))]),
            object(vec![("title", num(5))]),
            object(vec![("title", text("feat: add delisted app B (4a)"))]),
            object(vec![("title", text("x (77) (88)"))]),
        ]),
    )]);
    assert_eq!(ids_in_review(&reply), vec!["123".to_string(), "77".to_string()]);
    assert!(ids_in_review(&object(vec![])).is_empty());
}

#[test]
fn app_store_searches() {
    assert_eq!(search_url(None, None, None, None), Err("搜索关键词不能为空".to_string()));
    assert_eq!(search_url(Some(""), None, None, None), Err("搜索关键词不能为空".to_string()));
    assert_eq!(
        search_url(Some("微信 app"), None, None, None).unwrap(),
        "https://itunes.apple.com/search?term=%E5%BE%AE%E4%BF%A1%20app&country=US&media=software&limit=25"
    );
    assert_eq!(
        search_url(Some("x"), Some("CN"), Some("ipad"), Some("5")).unwrap(),
        "https://itunes.apple.com/search?term=x&country=CN&media=ipad&limit=5"
    );
    let found = object(vec![("resultCount", num(2)), ("results", JsonNode::Array(vec![num(1), num(2)]))]);
    assert_eq!(search_results(&found).map(|v| v.len()), Some(2));
    let none = object(vec![("resultCount", num(0)), ("results", JsonNode::Array(vec![]))]);
    assert!(search_results(&none).is_none());
    assert!(search_results(&object(vec![("results", JsonNode::Array(vec![num(1)]))])).is_none());
}

use ipatool::delisted::sort_archive_apps;

#[test]
fn archive_entries_latest_first() {
    let mut apps = Vec::new();
    for (id, added) in [("a", "2024-01-01"), ("b", "2025-03-01"), ("c", "2024-06-01"), ("d", "2025-03-01")] {
        let mut a = archive_app("user");
        a.id = id.to_string();
        a.added_at = added.to_string();
        apps.push(a);
    }
    let sorted = sort_archive_apps(&apps);
    let ids: Vec<&str> = sorted.iter().map(|a| a.id.as_str()).collect();
    assert_eq!(ids.len(), 4);
    assert_eq!(&ids[2..], &["c", "a"]);
    assert!(ids[..2].contains(&"b") && ids[..2].contains(&"d"));
}

use ipatool::search::{lookup_result, lookup_url};

#[test]
fn app_lookups() {
    assert_eq!(lookup_url("414478124", None), "https://itunes.apple.com/lookup?id=414478124&country=US");
    assert_eq!(lookup_url("a b", Some("CN")), "https://itunes.apple.com/lookup?id=a%20b&country=CN");
    let reply = object(vec![("results", JsonNode::Array(vec![text("first"), text("second")]))]);
    assert!(matches!(lookup_result(&reply), Some(JsonNode::String(s)) if s == "first"));
    assert!(lookup_result(&object(vec![("results", JsonNode::Array(vec![]))])).is_none());
    assert!(lookup_result(&object(vec![])).is_none());
}
