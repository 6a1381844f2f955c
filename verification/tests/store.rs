use ipatool::accounts::{
    admin_login_allowed, change_password_problem, is_pending_mfa_expired, login_credentials, login_error_message,
    login_outcome, new_username_choice, pending_mfa_problem, LoginOutcome,
};
use ipatool::auth_flow::{auth_after_answer, auth_request_body, auth_start, AuthAnswer, AuthNext};
use ipatool::jobs::{initial_job_events, job_event_name, sse_frame, JobEvent, JobState};
use ipatool::json::{JsonNode, JsonNumber};
use ipatool::passwords::hash_password;
use ipatool::purchases::{apps_to_check, cached_purchase_status, not_owned, owned_status, purchase_cache_fresh, purchase_query_failed, purchase_status_from_reply};
use ipatool::records::{AdminUser, AuthInfo};
use ipatool::store_requests::{
    auth_info_from_result, auth_request_fields, download_request_fields, mark_download_reply, mark_license_reply,
    purchase_request_fields, store_auth_headers,
};

fn text(s: &str) -> JsonNode {
    JsonNode::String(s.to_string())
}

fn members(pairs: Vec<(&str, JsonNode)>) -> Vec<(String, JsonNode)> {
    pairs.into_iter().map(|(k, v)| (k.to_string(), v)).collect()
}

fn lookup<'a>(m: &'a [(String, JsonNode)], key: &str) -> Option<&'a JsonNode> {
    m.iter().find(|(k, _)| k == key).map(|(_, v)| v)
}

fn text_of(m: &[(String, JsonNode)], key: &str) -> Option<String> {
    match lookup(m, key) {
        Some(JsonNode::String(s)) => Some(s.clone()),
        _ => None,
    }
}

fn admin(hash: String) -> AdminUser {
    AdminUser { id: Some(1), username: "admin".to_string(), password_hash: hash, is_default: true, created_at: None, updated_at: None }
}

#[test]
fn admin_sign_in_rules() {
    assert_eq!(login_credentials("  admin ", " secret "), Some(("admin".to_string(), "secret".to_string())));
    assert_eq!(login_credentials("admin", "   "), None);
    let user = admin(hash_password("secret").unwrap());
    assert!(admin_login_allowed("secret", Some(&user)));
    assert!(!admin_login_allowed("wrong", Some(&user)));
    assert!(!admin_login_allowed("secret", None));
    assert_eq!(change_password_problem("a", " "), Some("新密码不能为空".to_string()));
    assert_eq!(change_password_problem("same", "same"), Some("新密码不能与当前密码相同".to_string()));
    assert_eq!(change_password_problem("old", "new"), None);
    assert_eq!(new_username_choice(Some("  root "), "admin"), Some("root".to_string()));
    assert_eq!(new_username_choice(Some(" admin "), "admin"), None);
    assert_eq!(new_username_choice(Some("  "), "admin"), None);
    assert_eq!(new_username_choice(None, "admin"), None);
}

#[test]
fn apple_sign_in_outcomes() {
    let ok = members(vec![("_state", text("success")), ("dsPersonId", text("1"))]);
    assert!(matches!(login_outcome(&ok, false), LoginOutcome::Success));
    let code = members(vec![("_state", text("failure")), ("customerMessage", text("Enter the verification code"))]);
    assert!(matches!(login_outcome(&code, false), LoginOutcome::NeedMfa(_)));
    assert!(matches!(login_outcome(&code, true), LoginOutcome::MfaFailed(_)));
    let wrong = members(vec![("_state", text("failure")), ("failureType", text("-5000")), ("customerMessage", text("Your Apple ID or password was incorrect."))]);
    assert!(matches!(login_outcome(&wrong, false), LoginOutcome::Failed(_)));
    assert_eq!(login_error_message("error decoding response body: x"), "登录请求被 Apple 拒绝，请检查网络、账号密码，或者尝试使用应用专用密码登录");
    assert_eq!(login_error_message("operation timed out"), "连接 Apple 超时，请检查网络环境");
    assert_eq!(login_error_message("boom"), "登录失败: boom");
}

#[test]
fn pending_two_factor_sessions() {
    assert!(!is_pending_mfa_expired(600, 0));
    assert!(is_pending_mfa_expired(600, 1));
    assert!(is_pending_mfa_expired(601, 0));
    let hash = hash_password("pw").unwrap();
    assert!(pending_mfa_problem(false, false, "pw", &hash).unwrap().starts_with("验证码会话不存在"));
    assert_eq!(pending_mfa_problem(true, true, "pw", &hash).unwrap(), "验证码会话已超过 10 分钟，请重新登录以获取新的验证码");
    assert!(pending_mfa_problem(true, false, "other", &hash).unwrap().starts_with("登录密码已变更"));
    assert_eq!(pending_mfa_problem(true, false, "pw", &hash), None);
}

#[test]
fn purchase_statuses() {
    let owned = owned_status();
    assert!(owned.purchased && !owned.needs_purchase && owned.status == "owned" && owned.error.is_none());
    assert_eq!(cached_purchase_status(false, true).status, "not_owned");
    assert_eq!(cached_purchase_status(false, false).status, "unknown");
    assert!(purchase_cache_fresh(299));
    assert!(!purchase_cache_fresh(300));
    assert!(not_owned("This item is NOT OWNED"));
    assert!(not_owned("应用未领取"));
    assert!(!not_owned("temporarily unavailable"));

    let reply = members(vec![("_state", text("failure")), ("customerMessage", text("License not found"))]);
    let status = purchase_status_from_reply(&reply);
    assert!(!status.purchased && status.needs_purchase);
    assert_eq!(status.status, "not_owned");
    assert_eq!(status.error.as_deref(), Some("License not found"));
    let success = members(vec![("_state", text("success"))]);
    assert!(purchase_status_from_reply(&success).purchased);
    let failed = purchase_query_failed("network down");
    assert_eq!(failed.status, "error");
    assert_eq!(failed.error.as_deref(), Some("查询失败: network down"));

    let ids = vec!["1".to_string(), "2".to_string(), "3".to_string(), "2".to_string()];
    let owned_ids = vec!["2".to_string()];
    assert_eq!(apps_to_check(&ids, &owned_ids), vec!["1".to_string(), "3".to_string()]);
}

#[test]
fn store_request_fields() {
    let purchase = purchase_request_fields("GUID", "414478124", Some("8001"));
    assert_eq!(purchase[0], ("appExtVrsId", "8001".to_string()));
    assert_eq!(purchase[6], ("origPage", "Software-414478124".to_string()));
    assert_eq!(purchase.last().unwrap(), &("externalVersionId", "8001".to_string()));
    assert_eq!(purchase_request_fields("GUID", "1", None).len(), 12);
    let download = download_request_fields("GUID", "1", None);
    assert_eq!(download, vec![("creditDisplay", String::new()), ("guid", "GUID".to_string()), ("salableAdamId", "1".to_string())]);
    let auth = auth_request_fields("me@x.com", "pw", Some("12 34 56"), 2, "GUID");
    assert_eq!(auth[1], ("attempt", "2".to_string()));
    assert_eq!(auth[4], ("password", "pw123456".to_string()));
    let info = AuthInfo { ds_person_id: Some("42".to_string()), password_token: None, display_name: None, email: None, region: None };
    assert_eq!(store_auth_headers(&info), vec![("X-Dsid", "42".to_string()), ("iCloud-DSID", "42".to_string())]);
}

#[test]
fn store_replies_are_marked() {
    let mut licence = members(vec![("failureType", text("  "))]);
    mark_license_reply(&mut licence);
    assert_eq!(text_of(&licence, "_state").as_deref(), Some("success"));
    let mut refused = members(vec![("failureType", text("2034"))]);
    mark_license_reply(&mut refused);
    assert_eq!(text_of(&refused, "_state").as_deref(), Some("failure"));
    let mut empty = members(vec![("songList", JsonNode::Array(vec![]))]);
    mark_download_reply(&mut empty);
    assert_eq!(text_of(&empty, "_state").as_deref(), Some("failure"));
    let mut songs = members(vec![("_state", text("x")), ("songList", JsonNode::Array(vec![text("s")]))]);
    mark_download_reply(&mut songs);
    assert_eq!(text_of(&songs, "_state").as_deref(), Some("success"));
    assert_eq!(songs.len(), 2);

    let result = members(vec![("_state", text("success")), ("dsPersonId", text("9")), ("region", text("US"))]);
    let info = auth_info_from_result(&result, "me@x.com").unwrap();
    assert_eq!(info.ds_person_id.as_deref(), Some("9"));
    assert_eq!(info.region.as_deref(), Some("US"));
    assert_eq!(info.email.as_deref(), Some("me@x.com"));
    assert!(auth_info_from_result(&members(vec![]), "me@x.com").is_none());
}

const SIGNED_IN: &str = "<?xml version=\"1.0\" encoding=\"UTF-8\"?><plist version=\"1.0\"><dict><key>dsPersonId</key><string>77</string><key>accountInfo</key><dict><key>appleId</key><string>me@x.com</string></dict></dict></plist>";
const REFUSED: &str = "<plist version=\"1.0\"><dict><key>failureType</key><string>-5000</string><key>customerMessage</key><string>bad</string></dict></plist>";

#[test]
fn sign_in_exchange() {
    let mut progress = auth_start(None, "GUID");
    assert_eq!(progress.attempt, 1);
    assert_eq!(progress.url, "https://auth.itunes.apple.com/auth/v1/native/fast?guid=GUID");
    let body = auth_request_body(&progress, "me@x.com", "pw", None, "GUID").unwrap();
    let sent = plist::from_bytes::<plist::Value>(&body).unwrap();
    assert_eq!(sent.as_dictionary().unwrap().get("attempt").and_then(|v| v.as_string()), Some("1"));

    let next = auth_after_answer(&mut progress, Some("JP".to_string()), AuthAnswer::Redirect(Some("https://p1/auth".to_string())), "GUID");
    assert!(matches!(next, AuthNext::Send));
    assert_eq!(progress.url, "https://p1/auth?guid=GUID");
    assert_eq!(progress.attempt, 2);

    let next = auth_after_answer(&mut progress, None, AuthAnswer::Body(SIGNED_IN.to_string()), "GUID");
    match next {
        AuthNext::Done(m) => {
            assert_eq!(text_of(&m, "_state").as_deref(), Some("success"));
            assert_eq!(text_of(&m, "email").as_deref(), Some("me@x.com"));
            assert_eq!(text_of(&m, "region").as_deref(), Some("JP"));
        },
        AuthNext::Send => panic!("expected the end"),
    }

    let mut retry = auth_start(Some("https://e/x?y=1".to_string()), "G");
    assert_eq!(retry.url, "https://e/x?y=1&guid=G");
    assert!(matches!(auth_after_answer(&mut retry, None, AuthAnswer::Body(REFUSED.to_string()), "G"), AuthNext::Send));
    assert_eq!(retry.attempt, 2);
    match auth_after_answer(&mut retry, None, AuthAnswer::Body(REFUSED.to_string()), "G") {
        AuthNext::Done(m) => assert_eq!(text_of(&m, "_state").as_deref(), Some("failure")),
        AuthNext::Send => panic!("a second refusal ends"),
    }
    let mut lost = auth_start(None, "G");
    match auth_after_answer(&mut lost, None, AuthAnswer::Redirect(None), "G") {
        AuthNext::Done(m) => {
            assert_eq!(text_of(&m, "failureType").as_deref(), Some("RedirectError"));
            assert_eq!(text_of(&m, "_state").as_deref(), Some("failure"));
        },
        AuthNext::Send => panic!("expected the end"),
    }
    match auth_after_answer(&mut auth_start(None, "G"), None, AuthAnswer::Body("not a plist".to_string()), "G") {
        AuthNext::Done(m) => assert_eq!(text_of(&m, "failureType").as_deref(), Some("ParseError")),
        AuthNext::Send => panic!("expected the end"),
    }
}

#[test]
fn job_event_stream_frames() {
    let mut job = JobState::new("j".to_string());
    job.append_log("one".to_string());
    let (events, finished) = initial_job_events(&job);
    assert!(!finished);
    assert_eq!(events.len(), 2);
    assert_eq!(job_event_name(&events[0]), "log");
    assert_eq!(job_event_name(&events[1]), "progress");
    job.mark_failed("bad".to_string());
    let (events, finished) = initial_job_events(&job);
    assert!(finished);
    assert!(matches!(&events[2], JobEvent::End(e) if e.status == "failed" && e.error.as_deref() == Some("bad")));
    assert_eq!(sse_frame("log", "{\"line\":\"x\"}"), "event: log\ndata: {\"line\":\"x\"}\n\n");
    let _ = JsonNumber { integer: None, real: String::new(), text: String::new(), whole: 0 };
}

use ipatool::accounts::{auto_login_outcome, refresh_due, refresh_failure, AutoLoginOutcome};

#[test]
fn automatic_sign_ins() {
    let ok = members(vec![("_state", text("success")), ("dsPersonId", text("77"))]);
    assert!(matches!(auto_login_outcome(&ok), AutoLoginOutcome::SignedIn(d) if d == "77"));
    let ok_without_id = members(vec![("_state", text("success"))]);
    assert!(matches!(auto_login_outcome(&ok_without_id), AutoLoginOutcome::SignedIn(d) if d.is_empty()));
    let code = members(vec![("_state", text("failure")), ("customerMessage", text("MZFinance.BadLogin.Configurator_message"))]);
    assert!(matches!(auto_login_outcome(&code), AutoLoginOutcome::NeedsCode));
    let mfa = members(vec![("failureType", text("needs two-factor auth"))]);
    assert!(matches!(auto_login_outcome(&mfa), AutoLoginOutcome::NeedsCode));
    let refused = members(vec![("customerMessage", text("Bad password")), ("failureType", text("MFA"))]);
    assert!(matches!(auto_login_outcome(&refused), AutoLoginOutcome::Failed(m) if m == "Bad password"));
    let odd = members(vec![("customerMessage", JsonNode::Bool(true)), ("failureType", text("MFA"))]);
    assert!(matches!(auto_login_outcome(&odd), AutoLoginOutcome::Failed(m) if m == "登录失败"));

    assert!(refresh_due(true, 1800));
    assert!(!refresh_due(true, 1799));
    assert!(!refresh_due(false, 5000));
    assert_eq!(refresh_failure(&ok), None);
    assert_eq!(refresh_failure(&members(vec![])), Some("unknown failure".to_string()));
    assert_eq!(refresh_failure(&members(vec![("failureType", text("x"))])), Some("x".to_string()));
}

use ipatool::claims::{claim_check_step, download_link_reply, ClaimCheckStep, DownloadLinkReply};

#[test]
fn download_link_replies() {
    let song = JsonNode::Object(members(vec![
        ("URL", text("https://dl/a.ipa")),
        (
            "metadata",
            JsonNode::Object(members(vec![("bundleDisplayName", text("App")), ("bundleId", text("com.a")), ("artistName", text("Dev"))])),
        ),
    ]));
    let ok = members(vec![("_state", text("success")), ("songList", JsonNode::Array(vec![song]))]);
    match download_link_reply(&ok) {
        DownloadLinkReply::Link(l) => {
            assert_eq!(l.url, "https://dl/a.ipa");
            assert_eq!(l.name_for_file, "App");
            assert_eq!(l.version_for_file, "1.0.0");
            assert_eq!(l.bundle_id_for_file.as_deref(), Some("com.a"));
            assert_eq!(l.metadata.bundle_short_version_string, "");
            assert_eq!(l.metadata.artist_name, "Dev");
        }
        other => panic!("{:?}", other),
    }
    let no_link = members(vec![("_state", text("success")), ("songList", JsonNode::Array(vec![]))]);
    assert!(matches!(download_link_reply(&no_link), DownloadLinkReply::Refused(m) if m == "无法获取下载链接"));
    let unowned = members(vec![("_state", text("failure")), ("customerMessage", text("License Not Found"))]);
    assert!(matches!(download_link_reply(&unowned), DownloadLinkReply::NeedsPurchase(m) if m == "License Not Found"));
    let other = members(vec![("failureType", text("2034"))]);
    assert!(matches!(download_link_reply(&other), DownloadLinkReply::Refused(m) if m == "2034"));
    assert!(matches!(download_link_reply(&members(vec![])), DownloadLinkReply::Refused(m) if m == "下载失败"));
}

#[test]
fn claimed_apps_are_checked() {
    let ok = members(vec![("_state", text("success"))]);
    assert!(matches!(claim_check_step(2, &ok), ClaimCheckStep::Verified(3)));
    let lagging = members(vec![("message", text("  License not found "))]);
    assert!(matches!(claim_check_step(0, &lagging), ClaimCheckStep::CheckAgainAfter(1200)));
    assert!(matches!(claim_check_step(2, &lagging), ClaimCheckStep::CheckAgainAfter(4000)));
    assert!(matches!(claim_check_step(3, &lagging), ClaimCheckStep::GiveUp(m) if m == "Apple 正在同步领取状态，请稍后重试：License not found"));
    let final_refusal = members(vec![("customerMessage", text("Account locked"))]);
    assert!(matches!(claim_check_step(0, &final_refusal), ClaimCheckStep::GiveUp(m) if m == "Apple 正在同步领取状态，请稍后重试：Account locked"));
    assert!(matches!(claim_check_step(1, &members(vec![])), ClaimCheckStep::GiveUp(m) if m == "Apple 尚未确认领取成功，请稍后刷新或重试"));
    let chinese = members(vec![("failureType", text("应用未领取"))]);
    assert!(matches!(claim_check_step(1, &chinese), ClaimCheckStep::CheckAgainAfter(2500)));
}

use ipatool::store_requests::{guid_from_mac, guid_from_uuid};

#[test]
fn device_ids() {
    assert_eq!(guid_from_mac(" 0a:1b:2c:3d:4e:5f\n").as_deref(), Some("0A1B2C3D4E5F"));
    assert_eq!(guid_from_mac("0a1b2c3d4e5f"), None);
    assert_eq!(guid_from_mac("00:00:00:00:00:00:00"), None);
    assert_eq!(guid_from_uuid("550e8400-e29b-41d4-a716-446655440000"), "550E8400E29B");
    assert_eq!(guid_from_uuid("ab-c"), "ABC");
}

use ipatool::store_requests::{auth_endpoint_from_bag, bag_url, fallback_auth_url};

#[test]
fn configuration_bag() {
    assert_eq!(bag_url("ABC"), "https://init.itunes.apple.com/bag.xml?guid=ABC");
    assert_eq!(fallback_auth_url("ABC"), "https://auth.itunes.apple.com/auth/v1/native/fast?guid=ABC");
    let bag = members(vec![("urlBag", JsonNode::Object(members(vec![("authenticateAccount", text("https://a/auth"))])))]);
    assert_eq!(auth_endpoint_from_bag(&bag), Ok("https://a/auth".to_string()));
    let missing = members(vec![("urlBag", JsonNode::Object(members(vec![])))]);
    assert_eq!(auth_endpoint_from_bag(&missing), Err("bag missing urlBag.authenticateAccount".to_string()));
    assert_eq!(auth_endpoint_from_bag(&members(vec![])), Err("bag missing urlBag.authenticateAccount".to_string()));
}
