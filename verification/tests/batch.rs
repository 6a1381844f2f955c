use ipatool::batch::{
    after_failure, batch_delivery, batch_download_record, batch_status, fallback_versions, primary_versions,
    subscription_check, RetryStep,
};
use ipatool::inspection::IpaInspection;
use ipatool::json::JsonNode;
use ipatool::records::{DownloadMetadata, Subscription};

fn text(s: &str) -> JsonNode {
    JsonNode::String(s.to_string())
}

fn object(members: Vec<(&str, JsonNode)>) -> JsonNode {
    JsonNode::Object(members.into_iter().map(|(k, v)| (k.to_string(), v)).collect())
}

fn inspection(direct: bool, provisioned: bool, manifest: bool, encrypted: usize) -> IpaInspection {
    IpaInspection {
        has_sc_info_manifest: manifest,
        has_embedded_mobileprovision: provisioned,
        declared_sinf_paths: Vec::new(),
        present_sinf_paths: Vec::new(),
        missing_sinf_paths: Vec::new(),
        encrypted_binaries: (0..encrypted).map(|i| i.to_string()).collect(),
        direct_install_ok: direct,
        blocked_reason: None,
        recommended_action: None,
        summary: String::new(),
        bundle_id: None,
        bundle_short_version: None,
        bundle_display_name: None,
        executable: None,
    }
}

#[test]
fn batch_records_from_downloads() {
    let md = DownloadMetadata {
        bundle_display_name: "App".to_string(),
        bundle_short_version_string: String::new(),
        bundle_id: "com.a".to_string(),
        artwork_url: "https://a/i.png".to_string(),
        artist_name: String::new(),
    };
    let r = batch_download_record("42", "me@x", Some(&md), "/d/a.ipa", Some(9), "2025-01-01".to_string());
    assert_eq!(r.app_name, "App");
    assert_eq!(r.bundle_id.as_deref(), Some("com.a"));
    assert_eq!(r.version, None);
    assert_eq!(r.artwork_url.as_deref(), Some("https://a/i.png"));
    assert_eq!(r.artist_name, None);
    assert_eq!(r.status, "completed");
    assert_eq!(r.progress, Some(100));
    assert_eq!(r.file_size, Some(9));
    assert_eq!(r.download_date.as_deref(), Some("2025-01-01"));
    let bare = batch_download_record("42", "me@x", None, "/d/a.ipa", None, "t".to_string());
    assert_eq!(bare.app_name, "42");
    assert_eq!(bare.bundle_id, None);
}

#[test]
fn batch_delivery_kinds() {
    let d = batch_delivery(&inspection(true, true, false, 0));
    assert_eq!((d.package_kind.as_str(), d.ota_installable, d.install_method.as_str()), ("ota_sideloadable", true, "ota"));
    let d = batch_delivery(&inspection(true, false, true, 0));
    assert_eq!((d.package_kind.as_str(), d.ota_installable, d.install_method.as_str()), ("fairplay_appstore_package", false, "download_only"));
    let d = batch_delivery(&inspection(false, false, false, 2));
    assert_eq!(d.package_kind, "fairplay_appstore_package");
    let d = batch_delivery(&inspection(false, true, false, 0));
    assert_eq!((d.package_kind.as_str(), d.ota_installable, d.install_method.as_str()), ("unknown", false, "manual_review"));
}

#[test]
fn retries_back_off_then_give_up() {
    assert_eq!(after_failure(0), RetryStep::Retry { attempts: 1, delay_ms: 6000 });
    assert_eq!(after_failure(1), RetryStep::Retry { attempts: 2, delay_ms: 12000 });
    assert_eq!(after_failure(3), RetryStep::Retry { attempts: 4, delay_ms: 48000 });
    assert_eq!(after_failure(4), RetryStep::GiveUp { attempts: 5 });
    assert_eq!(batch_status(2, 1, 3), "completed");
    assert_eq!(batch_status(1, 1, 3), "processing");
}

fn subscription(current: Option<&str>) -> Subscription {
    Subscription {
        id: Some(1),
        app_id: "42".to_string(),
        app_name: "App".to_string(),
        bundle_id: Some("com.a".to_string()),
        account_email: "me@x".to_string(),
        account_region: Some("US".to_string()),
        current_version: current.map(str::to_string),
        artwork_url: None,
        artist_name: Some("Dev".to_string()),
        subscribed_at: None,
        last_checked: None,
        created_at: None,
    }
}

#[test]
fn subscription_updates() {
    let versions = vec![object(vec![("bundle_version", text("2.0"))]), object(vec![("bundle_version", text("1.0"))])];
    let (latest, update) = subscription_check(&subscription(Some("1.0")), &versions).unwrap();
    assert_eq!(latest, "2.0");
    let u = update.unwrap();
    assert_eq!((u.current_version.as_str(), u.latest_version.as_str(), u.artist_name.as_deref()), ("1.0", "2.0", Some("Dev")));
    let (latest, update) = subscription_check(&subscription(Some("2.0")), &versions).unwrap();
    assert_eq!(latest, "2.0");
    assert!(update.is_none());
    let (_, update) = subscription_check(&subscription(None), &vec![object(vec![])]).unwrap();
    assert!(update.is_none());
    assert!(subscription_check(&subscription(None), &vec![]).is_none());

    let wrapped = object(vec![("data", JsonNode::Array(vec![text("a")]))]);
    assert_eq!(primary_versions(&wrapped).map(|v| v.len()), Some(1));
    assert_eq!(primary_versions(&JsonNode::Array(vec![text("a"), text("b")])).map(|v| v.len()), Some(2));
    assert!(primary_versions(&text("x")).is_none());
    assert_eq!(fallback_versions(&wrapped).map(|v| v.len()), Some(1));
    assert!(fallback_versions(&JsonNode::Array(vec![])).is_none());
}

use ipatool::batch::{account_summary, batch_problem};
use ipatool::records::AuthInfo;

#[test]
fn batch_requests_are_checked() {
    let accounts = vec![("a@x".to_string(), true), ("b@x".to_string(), false), ("a@x".to_string(), false)];
    let emails = |l: &[&str]| l.iter().map(|s| s.to_string()).collect::<Vec<String>>();
    assert_eq!(batch_problem("  ", &emails(&["a@x"]), &accounts), Some("task_name 不能为空".to_string()));
    assert_eq!(batch_problem("t", &emails(&[]), &accounts), Some("items 不能为空".to_string()));
    assert_eq!(batch_problem("t", &emails(&["a@x", "c@x"]), &accounts), Some("账号未登录或不存在: c@x".to_string()));
    assert_eq!(batch_problem("t", &emails(&["b@x", "c@x"]), &accounts), Some("账号尚未完成认证: b@x".to_string()));
    assert_eq!(batch_problem("t", &emails(&["a@x", "a@x"]), &accounts), None);
}

#[test]
fn account_summaries() {
    let auth = AuthInfo {
        ds_person_id: Some("99".to_string()),
        password_token: None,
        display_name: Some("Ann".to_string()),
        email: Some("ann@icloud.com".to_string()),
        region: Some("JP".to_string()),
    };
    let saved = vec!["ann@icloud.com".to_string()];
    let s = account_summary("tok", "login@x", Some(&auth), &saved, Some(""));
    assert_eq!((s.email.as_str(), s.dsid.as_str(), s.region.as_str()), ("ann@icloud.com", "99", "JP"));
    assert_eq!(s.display_name.as_deref(), Some("Ann"));
    assert!(s.has_saved_credentials);
    let s = account_summary("tok", "login@x", Some(&auth), &saved, Some("CN"));
    assert_eq!(s.region, "CN");
    let s = account_summary("tok", "login@x", None, &saved, None);
    assert_eq!((s.email.as_str(), s.dsid.as_str(), s.region.as_str()), ("login@x", "", "US"));
    assert!(!s.has_saved_credentials);
}
