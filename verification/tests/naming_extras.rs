use ipatool::apple::{extract_itunes_track_id, resolved_account_region, summarize_song_list_sinfs};
use ipatool::json::{JsonNode, JsonNumber};
use ipatool::models::normalize_mfa_code;
use ipatool::naming::{
    archive_file_path, community_archive_app_path, get_account_id_for_token, mask_github_token, resolve_archive_dir,
    sanitize_upload_filename,
};

fn text(s: &str) -> JsonNode {
    JsonNode::String(s.to_string())
}

fn num(v: i64) -> JsonNode {
    JsonNode::Number(JsonNumber { integer: Some(v as i128), real: v.to_string(), text: v.to_string(), whole: v })
}

fn members(pairs: Vec<(&str, JsonNode)>) -> Vec<(String, JsonNode)> {
    pairs.into_iter().map(|(k, v)| (k.to_string(), v)).collect()
}

#[test]
fn archive_paths() {
    assert_eq!(community_archive_app_path("123"), "apps/delisted/123.json");
    assert_eq!(resolve_archive_dir("/srv/app"), "/srv/app/data/archive");
    assert_eq!(archive_file_path("/srv/app/data/archive", "123"), "/srv/app/data/archive/123.json");
}

#[test]
fn tokens_and_names() {
    assert_eq!(mask_github_token("  ghp_abcdefghij  "), "ghp_****ghij");
    assert_eq!(mask_github_token("short"), "****");
    assert_eq!(get_account_id_for_token("abc"), "tok_abc");
    assert_eq!(get_account_id_for_token("0123456789abcdefXYZ"), "tok_0123456789abcdef");
    assert_eq!(sanitize_upload_filename("C:\\dir\\my app?.ipa"), "my_app_.ipa");
    assert_eq!(sanitize_upload_filename("a/b/"), "upload.ipa");
    assert_eq!(normalize_mfa_code(Some(" 12 34 ")).as_deref(), Some("1234"));
    assert_eq!(normalize_mfa_code(Some("   ")), None);
    assert_eq!(normalize_mfa_code(None), None);
}

#[test]
fn store_reply_readings() {
    assert_eq!(resolved_account_region(&members(vec![("region", text(" cn "))]), None), "CN");
    assert_eq!(resolved_account_region(&members(vec![("region", text("x"))]), Some("jp".to_string())), "JP");
    assert_eq!(resolved_account_region(&members(vec![]), None), "US");

    let app = JsonNode::Object(members(vec![("trackViewUrl", text("https://apps.apple.com/app/id414478124?mt=8"))]));
    assert_eq!(extract_itunes_track_id(&app), "414478124");
    let app = JsonNode::Object(members(vec![("trackId", num(42)), ("id", text("7"))]));
    assert_eq!(extract_itunes_track_id(&app), "42");

    let song = members(vec![(
        "sinfs",
        JsonNode::Array(vec![JsonNode::Object(members(vec![("id", num(0)), ("sinf", text("QUJD"))])), JsonNode::Object(members(vec![]))]),
    )]);
    assert_eq!(summarize_song_list_sinfs(&song), "sinfs=2 [id=0 len=4, id=idx1 len=0]");
    assert_eq!(summarize_song_list_sinfs(&members(vec![])), "sinfs=missing");
    assert_eq!(summarize_song_list_sinfs(&members(vec![("sinfs", JsonNode::Array(vec![]))])), "sinfs=0");
}
