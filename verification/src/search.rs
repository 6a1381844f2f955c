//! App Store searches: the address of a search and the apps its reply lists.
use vstd::prelude::*;
use vstd::utf8::encode_utf8;
use crate::json::{json_get, json_member, number_as_i64, number_as_u64, JsonNode};
use crate::ota::{spec_url_encode, url_encode};
use crate::text::{push_str, string_from_chars};

verus! {

/// A query parameter, else its default.
pub open spec fn or_default(v: Option<Seq<char>>, default: Seq<char>) -> Seq<char> {
    match v {
        Some(x) => x,
        None => default,
    }
}

/// The address of an App Store search: refused without a term (or with an empty one);
/// else the search with the URL-encoded term and the country (`US`), media (`software`)
/// and limit (`25`) as given.
pub open spec fn spec_search_url(
    term: Option<Seq<char>>,
    region: Option<Seq<char>>,
    media: Option<Seq<char>>,
    limit: Option<Seq<char>>,
) -> Result<Seq<char>, Seq<char>> {
    let t = or_default(term, Seq::empty());
    if t.len() == 0 {
        Err("搜索关键词不能为空"@)
    } else {
        Ok("https://itunes.apple.com/search?term="@ + spec_url_encode(encode_utf8(t)) + "&country="@ + or_default(region, "US"@)
            + "&media="@ + or_default(media, "software"@) + "&limit="@ + or_default(limit, "25"@))
    }
}

/// The text of an optional parameter.
pub open spec fn opt_str(v: Option<&str>) -> Option<Seq<char>> {
    match v {
        Some(x) => Some(x@),
        None => None,
    }
}

/// The address of an App Store search (see [`spec_search_url`]).
pub fn search_url(term: Option<&str>, region: Option<&str>, media: Option<&str>, limit: Option<&str>) -> (r: Result<String, String>)
    ensures
        match spec_search_url(opt_str(term), opt_str(region), opt_str(media), opt_str(limit)) {
            Ok(u) => r matches Ok(x) && x@ == u,
            Err(e) => r matches Err(m) && m@ == e,
        },
{
    let t = match term {
        Some(x) => x,
        None => "",
    };
    proof {
        reveal_strlit("");
    }
    if t.is_empty() {
        return Err("搜索关键词不能为空".to_owned());
    }
    let mut buf: Vec<char> = Vec::new();
    push_str(&mut buf, "https://itunes.apple.com/search?term=");
    push_str(&mut buf, url_encode(t).as_str());
    push_str(&mut buf, "&country=");
    push_str(&mut buf, match region {
        Some(x) => x,
        None => "US",
    });
    push_str(&mut buf, "&media=");
    push_str(&mut buf, match media {
        Some(x) => x,
        None => "software",
    });
    push_str(&mut buf, "&limit=");
    push_str(&mut buf, match limit {
        Some(x) => x,
        None => "25",
    });
    Ok(string_from_chars(buf.as_slice()))
}

/// The apps a search reply lists: its `results` array when its `resultCount` is a
/// positive integer; none otherwise.
pub fn search_results(reply: &JsonNode) -> (r: Option<&Vec<JsonNode>>)
    ensures
        match (json_get(*reply, "resultCount"@), json_get(*reply, "results"@)) {
            (Some(JsonNode::Number(n)), Some(JsonNode::Array(items))) => match number_as_u64(n) {
                Some(c) => if c > 0 { r matches Some(v) && *v == items } else { r is None },
                None => r is None,
            },
            _ => r is None,
        },
{
    let positive = match json_member(reply, "resultCount") {
        Some(JsonNode::Number(n)) => match n.integer {
            Some(i) => 0 < i && i <= 18446744073709551615i128,
            None => false,
        },
        _ => false,
    };
    if !positive {
        return None;
    }
    match json_member(reply, "results") {
        Some(JsonNode::Array(items)) => Some(items),
        _ => None,
    }
}

/// The address of an App Store lookup of one app, in a region (`US` by default).
pub fn lookup_url(app_id: &str, region: Option<&str>) -> (r: String)
    ensures
        r@ == "https://itunes.apple.com/lookup?id="@ + spec_url_encode(encode_utf8(app_id@)) + "&country="@ + or_default(opt_str(region), "US"@),
{
    let mut buf: Vec<char> = Vec::new();
    push_str(&mut buf, "https://itunes.apple.com/lookup?id=");
    push_str(&mut buf, url_encode(app_id).as_str());
    push_str(&mut buf, "&country=");
    push_str(&mut buf, match region {
        Some(x) => x,
        None => "US",
    });
    string_from_chars(buf.as_slice())
}

/// The app a lookup reply describes: the first of its `results`, when that is a
/// non-empty array.
pub fn lookup_result(reply: &JsonNode) -> (r: Option<&JsonNode>)
    ensures
        match json_get(*reply, "results"@) {
            Some(JsonNode::Array(items)) => if items@.len() > 0 { r matches Some(x) && *x == items@[0] } else { r is None },
            _ => r is None,
        },
{
    match json_member(reply, "results") {
        Some(JsonNode::Array(items)) => if items.len() > 0 { Some(&items[0]) } else { None },
        _ => None,
    }
}

/// Whether a store lookup shows the app still listed: the lookup answered with success
/// and a JSON body whose `resultCount` is an integer (within `i64`) above zero; a failed
/// request, a failed status or an unreadable body count as not listed.
pub open spec fn spec_still_listed(answered_ok: bool, body: Option<JsonNode>) -> bool {
    answered_ok && match body {
        Some(b) => match json_get(b, "resultCount"@) {
            Some(JsonNode::Number(n)) => match number_as_i64(n) {
                Some(c) => c > 0,
                None => false,
            },
            _ => false,
        },
        None => false,
    }
}

/// Whether a store lookup shows the app still listed (see [`spec_still_listed`]).
pub fn still_listed(answered_ok: bool, body: Option<&JsonNode>) -> (r: bool)
    ensures
        r == spec_still_listed(answered_ok, match body {
            Some(b) => Some(*b),
            None => None,
        }),
{
    if !answered_ok {
        return false;
    }
    let b = match body {
        Some(b) => b,
        None => return false,
    };
    match json_member(b, "resultCount") {
        Some(JsonNode::Number(n)) => match n.integer {
            Some(i) => -9223372036854775808i128 <= i && i <= 9223372036854775807i128 && i > 0,
            None => false,
        },
        _ => false,
    }
}

} // verus!
