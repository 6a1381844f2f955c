//! The requests the store client sends (licence, download and sign-in bodies, addresses
//! and headers) and how it marks the store's replies.
use vstd::prelude::*;
use crate::apple::members_value;
use crate::json::{json_insert_position, json_members_insert, json_text, members_get_from, JsonNode};
use crate::records::AuthInfo;
use crate::text::{chars_of, decimal, opt_text, push_chars, push_str, spec_decimal, string_from_chars, trim, trim_white};

verus! {

/// The fields of a request body as texts.
pub open spec fn fields_view(fields: Seq<(&str, String)>) -> Seq<(Seq<char>, Seq<char>)> {
    Seq::new(fields.len(), |i: int| (fields[i].0@, fields[i].1@))
}

/// The fields of a licence request for an app (and version): the version id, when given,
/// fills `appExtVrsId` and is added as `externalVersionId`.
pub open spec fn purchase_fields(guid: Seq<char>, app_id: Seq<char>, app_ver_id: Option<Seq<char>>) -> Seq<(Seq<char>, Seq<char>)> {
    let base = seq![
        ("appExtVrsId"@, match app_ver_id {
            Some(v) => v,
            None => "0"@,
        }),
        ("hasAskedToFulfillPreorder"@, "true"@),
        ("buyWithoutAuthorization"@, "true"@),
        ("hasDoneAgeCheck"@, "true"@),
        ("guid"@, guid),
        ("needDiv"@, "0"@),
        ("origPage"@, "Software-"@ + app_id),
        ("origPageLocation"@, "Buy"@),
        ("price"@, "0"@),
        ("pricingParameters"@, "STDQ"@),
        ("productType"@, "C"@),
        ("salableAdamId"@, app_id),
    ];
    match app_ver_id {
        Some(v) => base.push(("externalVersionId"@, v)),
        None => base,
    }
}

fn text(t: &str) -> (r: String)
    ensures
        r@ == t@,
{
    t.to_owned()
}

fn concat(a: &str, b: &str) -> (r: String)
    ensures
        r@ == a@ + b@,
{
    let mut buf: Vec<char> = Vec::new();
    push_str(&mut buf, a);
    push_str(&mut buf, b);
    string_from_chars(buf.as_slice())
}

/// The fields of a licence request (see [`purchase_fields`]).
pub fn purchase_request_fields(guid: &str, app_identifier: &str, app_ver_id: Option<&str>) -> (r: Vec<(&'static str, String)>)
    ensures
        fields_view(r@) == purchase_fields(guid@, app_identifier@, match app_ver_id {
            Some(v) => Some(v@),
            None => None,
        }),
{
    let ext = match app_ver_id {
        Some(v) => text(v),
        None => text("0"),
    };
    let mut fields: Vec<(&'static str, String)> = Vec::new();
    fields.push(("appExtVrsId", ext));
    fields.push(("hasAskedToFulfillPreorder", text("true")));
    fields.push(("buyWithoutAuthorization", text("true")));
    fields.push(("hasDoneAgeCheck", text("true")));
    fields.push(("guid", text(guid)));
    fields.push(("needDiv", text("0")));
    fields.push(("origPage", concat("Software-", app_identifier)));
    fields.push(("origPageLocation", text("Buy")));
    fields.push(("price", text("0")));
    fields.push(("pricingParameters", text("STDQ")));
    fields.push(("productType", text("C")));
    fields.push(("salableAdamId", text(app_identifier)));
    match app_ver_id {
        Some(v) => {
            fields.push(("externalVersionId", text(v)));
        },
        None => {},
    }
    assert(fields_view(fields@) =~= purchase_fields(guid@, app_identifier@, match app_ver_id {
        Some(v) => Some(v@),
        None => None,
    }));
    fields
}

/// The fields of a download request for an app (and version).
pub open spec fn download_fields(guid: Seq<char>, app_id: Seq<char>, app_ver_id: Option<Seq<char>>) -> Seq<(Seq<char>, Seq<char>)> {
    let base = seq![("creditDisplay"@, Seq::<char>::empty()), ("guid"@, guid), ("salableAdamId"@, app_id)];
    match app_ver_id {
        Some(v) => base.push(("externalVersionId"@, v)),
        None => base,
    }
}

/// The fields of a download request (see [`download_fields`]).
pub fn download_request_fields(guid: &str, app_identifier: &str, app_ver_id: Option<&str>) -> (r: Vec<(&'static str, String)>)
    ensures
        fields_view(r@) == download_fields(guid@, app_identifier@, match app_ver_id {
            Some(v) => Some(v@),
            None => None,
        }),
{
    let mut fields: Vec<(&'static str, String)> = Vec::new();
    fields.push(("creditDisplay", String::new()));
    fields.push(("guid", text(guid)));
    fields.push(("salableAdamId", text(app_identifier)));
    match app_ver_id {
        Some(v) => {
            fields.push(("externalVersionId", text(v)));
        },
        None => {},
    }
    assert(fields_view(fields@) =~= download_fields(guid@, app_identifier@, match app_ver_id {
        Some(v) => Some(v@),
        None => None,
    }));
    fields
}

/// The decimal text of an attempt number.
pub open spec fn attempt_text(attempt: nat) -> Seq<char> {
    spec_decimal(attempt)
}

/// The password sent with a sign-in: the password followed by the verification code
/// without its spaces.
pub open spec fn combined_password(password: Seq<char>, mfa: Option<Seq<char>>) -> Seq<char> {
    match mfa {
        Some(m) => password + m.filter(|c: char| c != ' '),
        None => password,
    }
}

/// The fields of a sign-in request.
pub open spec fn auth_fields(email: Seq<char>, password: Seq<char>, mfa: Option<Seq<char>>, attempt: nat, guid: Seq<char>) -> Seq<(Seq<char>, Seq<char>)> {
    seq![
        ("appleId"@, email),
        ("attempt"@, attempt_text(attempt)),
        ("createSession"@, "true"@),
        ("guid"@, guid),
        ("password"@, combined_password(password, mfa)),
        ("rmp"@, "0"@),
        ("why"@, "signIn"@),
    ]
}

fn without_spaces(s: &str) -> (r: Vec<char>)
    ensures
        r@ == s@.filter(|c: char| c != ' '),
{
    let cs = chars_of(s);
    let ghost view = cs@;
    let mut out: Vec<char> = Vec::new();
    let mut i: usize = 0;
    while i < cs.len()
        invariant
            i <= view.len(),
            view == cs@,
            out@ == view.take(i as int).filter(|c: char| c != ' '),
        decreases view.len() - i,
    {
        proof {
            assert(view.take(i + 1) =~= view.take(i as int).push(view[i as int]));
            view.take(i as int).lemma_filter_push(view[i as int], |c: char| c != ' ');
        }
        if cs[i] != ' ' {
            out.push(cs[i]);
        }
        i = i + 1;
    }
    assert(view.take(view.len() as int) =~= view);
    out
}

/// The fields of a sign-in request (see [`auth_fields`]).
pub fn auth_request_fields(email: &str, password: &str, mfa: Option<&str>, attempt: u32, guid: &str) -> (r: Vec<(&'static str, String)>)
    ensures
        fields_view(r@) == auth_fields(email@, password@, match mfa {
            Some(m) => Some(m@),
            None => None,
        }, attempt as nat, guid@),
{
    let mut combined: Vec<char> = chars_of(password);
    match mfa {
        Some(m) => {
            let code = without_spaces(m);
            push_chars(&mut combined, code.as_slice());
        },
        None => {},
    }
    let digits = decimal(attempt as u64);
    let mut fields: Vec<(&'static str, String)> = Vec::new();
    fields.push(("appleId", text(email)));
    fields.push(("attempt", string_from_chars(digits.as_slice())));
    fields.push(("createSession", text("true")));
    fields.push(("guid", text(guid)));
    fields.push(("password", string_from_chars(combined.as_slice())));
    fields.push(("rmp", text("0")));
    fields.push(("why", text("signIn")));
    assert(fields_view(fields@) =~= auth_fields(email@, password@, match mfa {
        Some(m) => Some(m@),
        None => None,
    }, attempt as nat, guid@));
    fields
}

/// Whether `after` is `before` with the member `key` set to the string `text` (replacing
/// its value where the key is present, else inserted in key order).
pub open spec fn text_set(before: Seq<(String, JsonNode)>, after: Seq<(String, JsonNode)>, key: Seq<char>, text: Seq<char>) -> bool {
    let (found, pos) = json_insert_position(before, key, 0);
    exists|k: String, s: String| #![trigger k@, s@]
        k@ == key && s@ == text && after == if found {
            before.update(pos, (before[pos].0, JsonNode::String(s)))
        } else {
            before.insert(pos, (k, JsonNode::String(s)))
        }
}

/// Sets the member `key` of a reply to the string `value` (see [`text_set`]).
pub fn set_text_member(members: &mut Vec<(String, JsonNode)>, key: &str, value: String)
    ensures
        text_set(old(members)@, final(members)@, key@, value@),
{
    let k = key.to_owned();
    let ghost kk = k;
    let ghost vv = value;
    json_members_insert(members, k, JsonNode::String(value));
    assert(kk@ == key@ && vv@ == value@);
}

/// Whether a reply names a failure: its `failureType` is a string that is not blank.
pub open spec fn names_failure(reply: Seq<(String, JsonNode)>) -> bool {
    match json_text(members_get_from(reply, "failureType"@, 0)) {
        Some(t) => trim_white(t).len() > 0,
        None => false,
    }
}

fn failure_named(reply: &Vec<(String, JsonNode)>) -> (r: bool)
    ensures
        r == names_failure(reply@),
{
    match members_value(reply, "failureType") {
        Some(JsonNode::String(s)) => chars_of(trim(s.as_str()).as_str()).len() > 0,
        _ => false,
    }
}

/// Marks the reply to a licence request: `_state` is `failure` when it names a failure,
/// else `success`.
pub fn mark_license_reply(reply: &mut Vec<(String, JsonNode)>)
    ensures
        text_set(old(reply)@, final(reply)@, "_state"@, if names_failure(old(reply)@) { "failure"@ } else { "success"@ }),
{
    let failed = failure_named(reply);
    let state = if failed { text("failure") } else { text("success") };
    set_text_member(reply, "_state", state);
}

/// Whether a reply carries a non-empty song list.
pub open spec fn has_songs(reply: Seq<(String, JsonNode)>) -> bool {
    match members_get_from(reply, "songList"@, 0) {
        Some(JsonNode::Array(items)) => items@.len() > 0,
        _ => false,
    }
}

/// Marks the reply to a download request: `_state` is `failure` when it names a failure
/// or carries no song, else `success`.
pub fn mark_download_reply(reply: &mut Vec<(String, JsonNode)>)
    ensures
        text_set(old(reply)@, final(reply)@, "_state"@, if names_failure(old(reply)@) || !has_songs(old(reply)@) { "failure"@ } else { "success"@ }),
{
    let failed = failure_named(reply);
    let songs = match members_value(reply, "songList") {
        Some(JsonNode::Array(items)) => items.len() > 0,
        _ => false,
    };
    let state = if failed || !songs { text("failure") } else { text("success") };
    set_text_member(reply, "_state", state);
}

/// The headers that carry an account's credentials: `X-Dsid` and `iCloud-DSID` with its
/// person id, and `X-Token` with its password token, each when known.
pub open spec fn auth_headers(ds_person_id: Option<Seq<char>>, password_token: Option<Seq<char>>) -> Seq<(Seq<char>, Seq<char>)> {
    let ids = match ds_person_id {
        Some(d) => seq![("X-Dsid"@, d), ("iCloud-DSID"@, d)],
        None => Seq::empty(),
    };
    match password_token {
        Some(t) => ids.push(("X-Token"@, t)),
        None => ids,
    }
}

/// The headers that carry an account's credentials (see [`auth_headers`]).
pub fn store_auth_headers(auth_info: &AuthInfo) -> (r: Vec<(&'static str, String)>)
    ensures
        fields_view(r@) == auth_headers(opt_text(auth_info.ds_person_id), opt_text(auth_info.password_token)),
{
    let mut headers: Vec<(&'static str, String)> = Vec::new();
    match &auth_info.ds_person_id {
        Some(d) => {
            headers.push(("X-Dsid", d.clone()));
            headers.push(("iCloud-DSID", d.clone()));
        },
        None => {},
    }
    match &auth_info.password_token {
        Some(t) => {
            headers.push(("X-Token", t.clone()));
        },
        None => {},
    }
    assert(fields_view(headers@) =~= auth_headers(opt_text(auth_info.ds_person_id), opt_text(auth_info.password_token)));
    headers
}

/// The credentials a successful sign-in gives an account: person id, password token,
/// display name and region when they are strings, and the account's email.
pub open spec fn spec_auth_info(result: Seq<(String, JsonNode)>, email: Seq<char>, info: AuthInfo) -> bool {
    &&& opt_text(info.ds_person_id) == json_text(members_get_from(result, "dsPersonId"@, 0))
    &&& opt_text(info.password_token) == json_text(members_get_from(result, "passwordToken"@, 0))
    &&& opt_text(info.display_name) == json_text(members_get_from(result, "displayName"@, 0))
    &&& opt_text(info.email) == Some(email)
    &&& opt_text(info.region) == json_text(members_get_from(result, "region"@, 0))
}

/// The credentials a sign-in gives an account, when it succeeded (see
/// [`spec_auth_info`]).
pub fn auth_info_from_result(result: &Vec<(String, JsonNode)>, email: &str) -> (r: Option<AuthInfo>)
    ensures
        match r {
            Some(info) => crate::download_flow::reply_ok(result@) && spec_auth_info(result@, email@, info),
            None => !crate::download_flow::reply_ok(result@),
        },
{
    let success = text("success");
    let ok = match members_value(result, "_state") {
        Some(JsonNode::String(s)) => *s == success,
        _ => false,
    };
    if !ok {
        return None;
    }
    Some(AuthInfo {
        ds_person_id: crate::apple::members_text(result, "dsPersonId"),
        password_token: crate::apple::members_text(result, "passwordToken"),
        display_name: crate::apple::members_text(result, "displayName"),
        email: Some(text(email)),
        region: crate::apple::members_text(result, "region"),
    })
}

/// The store client's device id from a network interface's hardware address: the address
/// trimmed, when it has at least 17 bytes and a `:`, without its `:` and upper-cased, when
/// that leaves 12 bytes.
pub open spec fn spec_guid_from_mac(address: Seq<char>) -> Option<Seq<char>> {
    let mac = trim_white(address);
    if vstd::utf8::encode_utf8(mac).len() >= 17 && mac.contains(':') {
        let g = crate::models::upper_text(crate::models::without_char(mac, ':'));
        if vstd::utf8::encode_utf8(g).len() == 12 { Some(g) } else { None }
    } else {
        None
    }
}

/// The store client's device id from a hardware address (see [`spec_guid_from_mac`]).
pub fn guid_from_mac(address: &str) -> (r: Option<String>)
    ensures
        opt_text(r) == spec_guid_from_mac(address@),
{
    let mac = trim(address);
    let cs = chars_of(mac.as_str());
    let mut has_colon = false;
    let mut i: usize = 0;
    while i < cs.len()
        invariant
            i <= cs@.len(),
            has_colon == exists|k: int| 0 <= k < i && cs@[k] == ':',
        decreases cs@.len() - i,
    {
        if cs[i] == ':' {
            has_colon = true;
        }
        i = i + 1;
    }
    proof {
        if has_colon {
            let k = choose|k: int| 0 <= k < cs@.len() && cs@[k] == ':';
            assert(mac@[k] == ':');
        }
        if mac@.contains(':') {
            let k = choose|k: int| 0 <= k < mac@.len() && mac@[k] == ':';
            assert(cs@[k] == ':');
        }
    }
    if mac.as_str().as_bytes().len() >= 17 && has_colon {
        let g = crate::models::to_upper(crate::models::remove_char(mac.as_str(), ':').as_str());
        if g.as_str().as_bytes().len() == 12 {
            return Some(g);
        }
    }
    None
}

/// The store client's fallback device id from a random identifier's text: upper-cased,
/// without `-`, its first 12 characters.
pub fn guid_from_uuid(uuid_text: &str) -> (r: String)
    ensures
        r@ == ({
            let t = crate::models::without_char(crate::models::upper_text(uuid_text@), '-');
            if t.len() <= 12 { t } else { t.subrange(0, 12) }
        }),
{
    let up = crate::models::to_upper(uuid_text);
    let t = crate::models::remove_char(up.as_str(), '-');
    let cs = chars_of(t.as_str());
    if cs.len() <= 12 {
        t
    } else {
        string_from_chars(crate::bundle::slice_chars(cs.as_slice(), 0, 12).as_slice())
    }
}

/// The address of the store's configuration bag for a device.
pub fn bag_url(guid: &str) -> (r: String)
    ensures
        r@ == "https://init.itunes.apple.com/bag.xml?guid="@ + guid@,
{
    let mut buf: Vec<char> = Vec::new();
    push_str(&mut buf, "https://init.itunes.apple.com/bag.xml?guid=");
    push_str(&mut buf, guid);
    string_from_chars(buf.as_slice())
}

/// The sign-in address used when the bag does not give one, for a device.
pub fn fallback_auth_url(guid: &str) -> (r: String)
    ensures
        r@ == "https://auth.itunes.apple.com/auth/v1/native/fast?guid="@ + guid@,
{
    let mut buf: Vec<char> = Vec::new();
    push_str(&mut buf, "https://auth.itunes.apple.com/auth/v1/native/fast?guid=");
    push_str(&mut buf, guid);
    string_from_chars(buf.as_slice())
}

/// The sign-in address in a parsed bag: the `authenticateAccount` text of its `urlBag`
/// object; else the error `bag missing urlBag.authenticateAccount`.
pub fn auth_endpoint_from_bag(bag: &Vec<(String, JsonNode)>) -> (r: Result<String, String>)
    ensures
        match members_get_from(bag@, "urlBag"@, 0) {
            Some(JsonNode::Object(m)) => match members_get_from(m@, "authenticateAccount"@, 0) {
                Some(JsonNode::String(e)) => r matches Ok(x) && x@ == e@,
                _ => r matches Err(m) && m@ == "bag missing urlBag.authenticateAccount"@,
            },
            _ => r matches Err(m) && m@ == "bag missing urlBag.authenticateAccount"@,
        },
{
    match members_value(bag, "urlBag") {
        Some(JsonNode::Object(m)) => match members_value(m, "authenticateAccount") {
            Some(JsonNode::String(e)) => Ok(e.clone()),
            _ => Err("bag missing urlBag.authenticateAccount".to_owned()),
        },
        _ => Err("bag missing urlBag.authenticateAccount".to_owned()),
    }
}

} // verus!
