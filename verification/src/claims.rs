//! Replies of the store about a single app: the download link it hands out, and the check
//! that a free app just claimed is really owned.
use vstd::prelude::*;
use crate::accounts::reply_message;
use crate::apple::{has_text, lower_text, members_value, same_text, to_lower};
use crate::download_flow::reply_ok;
use crate::json::{json_get, json_text, members_get_from, JsonNode};
use crate::records::DownloadMetadata;
use crate::text::{push_str, seq_contains_run, string_from_chars, trim, trim_white};

verus! {

/// Whether a refusal of the store means the app is not owned: its lower-case form mentions
/// `license` or `not found`, or it says `未购买`.
pub open spec fn means_not_owned(m: Seq<char>) -> bool {
    seq_contains_run(lower_text(m), "license"@) || seq_contains_run(lower_text(m), "not found"@) || seq_contains_run(m, "未购买"@)
}

/// A download link the store handed out, with what names the file.
#[derive(Debug, Clone)]
pub struct DownloadLink {
    pub url: String,
    /// The display name the file is named after (`app` when unknown).
    pub name_for_file: String,
    /// The version the file is named after (`1.0.0` when unknown).
    pub version_for_file: String,
    /// The bundle id the file is named after, when known.
    pub bundle_id_for_file: Option<String>,
    /// The app's metadata (empty texts when unknown).
    pub metadata: DownloadMetadata,
}

/// What a request for a download link gave.
#[derive(Debug, Clone)]
pub enum DownloadLinkReply {
    /// The link.
    Link(DownloadLink),
    /// The app is not owned; the store's message.
    NeedsPurchase(String),
    /// Refused, with the message.
    Refused(String),
}

/// A text member of the song's metadata, else the fallback.
pub open spec fn metadata_text(meta: Option<JsonNode>, key: Seq<char>, fallback: Seq<char>) -> Seq<char> {
    match meta {
        Some(JsonNode::Object(m)) => match members_get_from(m@, key, 0) {
            Some(JsonNode::String(s)) => s@,
            _ => fallback,
        },
        _ => fallback,
    }
}

/// The first song of a successful reply, when its `songList` is a non-empty array.
pub open spec fn first_song(reply: Seq<(String, JsonNode)>) -> Option<JsonNode> {
    match members_get_from(reply, "songList"@, 0) {
        Some(JsonNode::Array(items)) => if items@.len() > 0 { Some(items@[0]) } else { None },
        _ => None,
    }
}

/// The download link of the first song, when it has a `URL` text.
pub open spec fn song_url(reply: Seq<(String, JsonNode)>) -> Option<Seq<char>> {
    match first_song(reply) {
        Some(song) => json_text(json_get(song, "URL"@)),
        None => None,
    }
}

/// The metadata object of the first song.
pub open spec fn song_metadata(reply: Seq<(String, JsonNode)>) -> Option<JsonNode> {
    match first_song(reply) {
        Some(song) => match json_get(song, "metadata"@) {
            Some(JsonNode::Object(m)) => Some(JsonNode::Object(m)),
            _ => None,
        },
        None => None,
    }
}

/// Whether the reply to a request for a download link is read as the store meant it: a
/// successful reply with a link gives the link and the song's metadata; a successful one
/// without gives its message (`无法获取下载链接` by default); a failed one gives its
/// message (`下载失败` by default), which asks for a purchase when it means the app is not
/// owned (see [`means_not_owned`]).
pub open spec fn is_link_reply(reply: Seq<(String, JsonNode)>, r: DownloadLinkReply) -> bool {
    let meta = song_metadata(reply);
    if reply_ok(reply) {
        match song_url(reply) {
            Some(u) => r matches DownloadLinkReply::Link(l) && {
                &&& l.url@ == u
                &&& l.name_for_file@ == metadata_text(meta, "bundleDisplayName"@, "app"@)
                &&& l.version_for_file@ == metadata_text(meta, "bundleShortVersionString"@, "1.0.0"@)
                &&& crate::text::opt_text(l.bundle_id_for_file) == match meta {
                    Some(JsonNode::Object(m)) => match members_get_from(m@, "bundleId"@, 0) {
                        Some(JsonNode::String(s)) => Some(s@),
                        _ => None,
                    },
                    _ => None,
                }
                &&& l.metadata.bundle_display_name@ == metadata_text(meta, "bundleDisplayName"@, ""@)
                &&& l.metadata.bundle_short_version_string@ == metadata_text(meta, "bundleShortVersionString"@, ""@)
                &&& l.metadata.bundle_id@ == metadata_text(meta, "bundleId"@, ""@)
                &&& l.metadata.artwork_url@ == metadata_text(meta, "artworkUrl"@, ""@)
                &&& l.metadata.artist_name@ == metadata_text(meta, "artistName"@, ""@)
            },
            None => r matches DownloadLinkReply::Refused(m) && m@ == reply_message(reply, "无法获取下载链接"@),
        }
    } else if means_not_owned(reply_message(reply, "下载失败"@)) {
        r matches DownloadLinkReply::NeedsPurchase(m) && m@ == reply_message(reply, "下载失败"@)
    } else {
        r matches DownloadLinkReply::Refused(m) && m@ == reply_message(reply, "下载失败"@)
    }
}

fn message_or(reply: &Vec<(String, JsonNode)>, fallback: &str) -> (r: String)
    ensures
        r@ == reply_message(reply@, fallback@),
{
    let member = match members_value(reply, "customerMessage") {
        Some(v) => Some(v),
        None => members_value(reply, "failureType"),
    };
    match member {
        Some(JsonNode::String(s)) => s.clone(),
        _ => fallback.to_owned(),
    }
}

fn succeeded(reply: &Vec<(String, JsonNode)>) -> (r: bool)
    ensures
        r == reply_ok(reply@),
{
    match members_value(reply, "_state") {
        Some(JsonNode::String(s)) => same_text(s.as_str(), "success"),
        _ => false,
    }
}

fn meta_text(meta: Option<&Vec<(String, JsonNode)>>, key: &str, fallback: &str) -> (r: String)
    ensures
        r@ == metadata_text(
            match meta {
                Some(m) => Some(JsonNode::Object(*m)),
                None => None,
            },
            key@,
            fallback@,
        ),
{
    match meta {
        Some(m) => match members_value(m, key) {
            Some(JsonNode::String(s)) => s.clone(),
            _ => fallback.to_owned(),
        },
        None => fallback.to_owned(),
    }
}

fn not_owned_message(m: &str) -> (r: bool)
    ensures
        r == means_not_owned(m@),
{
    let lower = to_lower(m);
    has_text(lower.as_str(), "license") || has_text(lower.as_str(), "not found") || has_text(m, "未购买")
}

/// Reads the store's reply to a request for a download link (see [`is_link_reply`]).
pub fn download_link_reply(reply: &Vec<(String, JsonNode)>) -> (r: DownloadLinkReply)
    ensures
        is_link_reply(reply@, r),
{
    if !succeeded(reply) {
        let m = message_or(reply, "下载失败");
        if not_owned_message(m.as_str()) {
            return DownloadLinkReply::NeedsPurchase(m);
        }
        return DownloadLinkReply::Refused(m);
    }
    let song = match members_value(reply, "songList") {
        Some(JsonNode::Array(items)) => if items.len() > 0 { Some(&items[0]) } else { None },
        _ => None,
    };
    let url = match song {
        Some(s) => crate::json::json_member_text(s, "URL"),
        None => None,
    };
    let url = match url {
        Some(u) => u,
        None => return DownloadLinkReply::Refused(message_or(reply, "无法获取下载链接")),
    };
    let meta: Option<&Vec<(String, JsonNode)>> = match song {
        Some(s) => match crate::json::json_member(s, "metadata") {
            Some(JsonNode::Object(m)) => Some(m),
            _ => None,
        },
        None => None,
    };
    let bundle_id_for_file = match meta {
        Some(m) => match members_value(m, "bundleId") {
            Some(JsonNode::String(s)) => Some(s.clone()),
            _ => None,
        },
        None => None,
    };
    DownloadLinkReply::Link(DownloadLink {
        url,
        name_for_file: meta_text(meta, "bundleDisplayName", "app"),
        version_for_file: meta_text(meta, "bundleShortVersionString", "1.0.0"),
        bundle_id_for_file,
        metadata: DownloadMetadata {
            bundle_display_name: meta_text(meta, "bundleDisplayName", ""),
            bundle_short_version_string: meta_text(meta, "bundleShortVersionString", ""),
            bundle_id: meta_text(meta, "bundleId", ""),
            artwork_url: meta_text(meta, "artworkUrl", ""),
            artist_name: meta_text(meta, "artistName", ""),
        },
    })
}

/// How long to wait before each check that a claimed app is owned, in milliseconds: none
/// before the first, then 1.2, 2.5 and 4 seconds.
pub open spec fn claim_check_delay(attempt: int) -> u64 {
    if attempt == 1 { 1200 } else if attempt == 2 { 2500 } else if attempt == 3 { 4000 } else { 0 }
}

/// The number of checks that a claimed app is owned.
pub const CLAIM_CHECKS: usize = 4;

/// What follows a check that a claimed app is owned.
#[derive(Debug, Clone)]
pub enum ClaimCheckStep {
    /// Owned, after this many checks.
    Verified(usize),
    /// Wait this long, then check again.
    CheckAgainAfter(u64),
    /// Give up, with the message for the user.
    GiveUp(String),
}

/// The refusal message of a check reply: its `customerMessage`, else `failureType`, else
/// `message` member, when that is text; else empty; trimmed.
pub open spec fn check_error(reply: Seq<(String, JsonNode)>) -> Seq<char> {
    let member = match members_get_from(reply, "customerMessage"@, 0) {
        Some(v) => Some(v),
        None => match members_get_from(reply, "failureType"@, 0) {
            Some(v) => Some(v),
            None => members_get_from(reply, "message"@, 0),
        },
    };
    trim_white(
        match member {
            Some(JsonNode::String(s)) => s@,
            _ => Seq::empty(),
        },
    )
}

/// Whether a refused check is worth repeating: the store has not caught up with the claim
/// yet (`license not found`, `not purchased` or `not found` in lower case, or `未购买`,
/// `未领取` or `未找到`).
pub open spec fn check_worth_repeating(e: Seq<char>) -> bool {
    seq_contains_run(lower_text(e), "license not found"@) || seq_contains_run(lower_text(e), "not purchased"@)
        || seq_contains_run(lower_text(e), "not found"@) || seq_contains_run(e, "未购买"@) || seq_contains_run(e, "未领取"@)
        || seq_contains_run(e, "未找到"@)
}

/// The message when the claim could not be confirmed, from the last check's refusal.
pub open spec fn unconfirmed_message(e: Seq<char>) -> Seq<char> {
    if e.len() == 0 {
        "Apple 尚未确认领取成功，请稍后刷新或重试"@
    } else {
        "Apple 正在同步领取状态，请稍后重试："@ + e
    }
}

/// What follows check number `attempt` (from 0) of a claimed app: owned when the reply
/// succeeds; else, when the refusal is worth repeating (see [`check_worth_repeating`]) and
/// checks are left, wait (see [`claim_check_delay`]) and check again; else give up (see
/// [`unconfirmed_message`]).
pub open spec fn spec_claim_check_step(attempt: int, reply: Seq<(String, JsonNode)>, r: ClaimCheckStep) -> bool {
    if reply_ok(reply) {
        r matches ClaimCheckStep::Verified(n) && n == attempt + 1
    } else if check_worth_repeating(check_error(reply)) && attempt + 1 < CLAIM_CHECKS {
        r matches ClaimCheckStep::CheckAgainAfter(d) && d == claim_check_delay(attempt + 1)
    } else {
        r matches ClaimCheckStep::GiveUp(m) && m@ == unconfirmed_message(check_error(reply))
    }
}

/// What follows a check that a claimed app is owned (see [`spec_claim_check_step`]).
pub fn claim_check_step(attempt: usize, reply: &Vec<(String, JsonNode)>) -> (r: ClaimCheckStep)
    requires
        attempt < CLAIM_CHECKS,
    ensures
        spec_claim_check_step(attempt as int, reply@, r),
{
    if succeeded(reply) {
        return ClaimCheckStep::Verified(attempt + 1);
    }
    let member = match members_value(reply, "customerMessage") {
        Some(v) => Some(v),
        None => match members_value(reply, "failureType") {
            Some(v) => Some(v),
            None => members_value(reply, "message"),
        },
    };
    let raw = match member {
        Some(JsonNode::String(s)) => s.clone(),
        _ => String::new(),
    };
    let e = trim(raw.as_str());
    let lower = to_lower(e.as_str());
    let repeat = has_text(lower.as_str(), "license not found") || has_text(lower.as_str(), "not purchased")
        || has_text(lower.as_str(), "not found") || has_text(e.as_str(), "未购买") || has_text(e.as_str(), "未领取")
        || has_text(e.as_str(), "未找到");
    if repeat && attempt + 1 < CLAIM_CHECKS {
        let delay: u64 = if attempt + 1 == 1 { 1200 } else if attempt + 1 == 2 { 2500 } else { 4000 };
        return ClaimCheckStep::CheckAgainAfter(delay);
    }
    if e.as_str().is_empty() {
        ClaimCheckStep::GiveUp("Apple 尚未确认领取成功，请稍后刷新或重试".to_owned())
    } else {
        let mut buf: Vec<char> = Vec::new();
        push_str(&mut buf, "Apple 正在同步领取状态，请稍后重试：");
        push_str(&mut buf, e.as_str());
        ClaimCheckStep::GiveUp(string_from_chars(buf.as_slice()))
    }
}

} // verus!
