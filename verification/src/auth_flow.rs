//! The sign-in exchange with Apple as a state machine: where to post, what to post, and
//! what to do with each answer (follow a redirect, retry, or finish with a result map).
//! The host sends the requests and reads the answers.
use vstd::prelude::*;
use crate::apple::{
    apple_response_of, build_xml_plist_body, body_entries, plist_body_of, ensure_guid_query, extract_account_metadata,
    members_value, parse_apple_plist_response, plist_body_in_order, spec_account_metadata, spec_guid_query,
};
use crate::json::{json_text, members_get_from, JsonNode};
use crate::property_list::{entries_view, plist_xml, PlistNode};
use crate::store_requests::{auth_fields, auth_request_fields, fields_view, set_text_member, text_set};
use crate::text::{push_str, string_from_chars};

verus! {

/// Where a sign-in stands.
#[derive(Debug)]
pub struct AuthProgress {
    /// The attempt being made, from 1 to 4.
    pub attempt: u32,
    /// Where the attempt is posted.
    pub url: String,
    /// The last region a store-front header named.
    pub inferred_region: Option<String>,
    /// The answer kept when an attempt is retried.
    pub last_result: Option<Vec<(String, JsonNode)>>,
}

/// What an answer to a sign-in post was.
#[derive(Debug, Clone)]
pub enum AuthAnswer {
    /// A redirect, with its target resolved against the posted address when it could be.
    Redirect(Option<String>),
    /// Any other answer, with its body.
    Body(String),
}

/// What a sign-in does next.
#[derive(Debug)]
pub enum AuthNext {
    /// Post the next attempt.
    Send,
    /// Finish with this result map.
    Done(Vec<(String, JsonNode)>),
}

/// The address the first attempt is posted to: the resolved sign-in endpoint (else the
/// fixed fallback), with the device guid in its query.
pub open spec fn spec_auth_url(endpoint: Option<Seq<char>>, guid: Seq<char>) -> Seq<char> {
    let chosen = match endpoint {
        Some(e) => e,
        None => "https://auth.itunes.apple.com/auth/v1/native/fast?guid="@ + guid,
    };
    spec_guid_query(chosen, guid)
}

/// The start of a sign-in (see [`spec_auth_url`]).
pub fn auth_start(endpoint: Option<String>, guid: &str) -> (r: AuthProgress)
    ensures
        r.attempt == 1,
        r.url@ == spec_auth_url(crate::text::opt_text(endpoint), guid@),
        r.inferred_region is None,
        r.last_result is None,
{
    let chosen = match endpoint {
        Some(e) => e,
        None => {
            let mut buf: Vec<char> = Vec::new();
            push_str(&mut buf, "https://auth.itunes.apple.com/auth/v1/native/fast?guid=");
            push_str(&mut buf, guid);
            string_from_chars(buf.as_slice())
        },
    };
    AuthProgress { attempt: 1, url: ensure_guid_query(chosen.as_str(), guid), inferred_region: None, last_result: None }
}

/// The body of the current attempt: the sign-in fields (see [`auth_fields`]) as an XML
/// property list, or the writer's error (`build auth plist failed: <error>`).
pub fn auth_request_body(progress: &AuthProgress, email: &str, password: &str, mfa: Option<&str>, guid: &str) -> (r: Result<Vec<u8>, String>)
    ensures
        exists|f: Seq<(&str, String)>, inner: Result<Vec<u8>, String>| #![trigger fields_view(f), plist_body_of(f, inner)]
            fields_view(f) == auth_fields(email@, password@, match mfa {
                Some(m) => Some(m@),
                None => None,
            }, progress.attempt as nat, guid@) && plist_body_of(f, inner) && match inner {
                Ok(b) => r matches Ok(v) && v@ == b@,
                Err(e) => r matches Err(m) && m@ == "build auth plist failed: "@ + e@,
            },
{
    let fields = auth_request_fields(email, password, mfa, progress.attempt, guid);
    let built = build_xml_plist_body(fields.as_slice());
    let ghost inner = built;
    let r = match built {
        Ok(b) => Ok(b),
        Err(e) => {
            let mut buf: Vec<char> = Vec::new();
            push_str(&mut buf, "build auth plist failed: ");
            push_str(&mut buf, e.as_str());
            Err(string_from_chars(buf.as_slice()))
        },
    };
    assert(plist_body_of(fields@, inner));
    r
}

/// Whether a member is `key` with the string `text`.
pub open spec fn member_is_text(m: (String, JsonNode), key: Seq<char>, text: Seq<char>) -> bool {
    m.0@ == key && match m.1 {
        JsonNode::String(s) => s@ == text,
        _ => false,
    }
}

/// Whether a map is the failure `failure_type` with the customer message `message`.
pub open spec fn failure_map_is(m: Seq<(String, JsonNode)>, failure_type: Seq<char>, message: Seq<char>) -> bool {
    m.len() == 3 && member_is_text(m[0], "_state"@, "failure"@) && member_is_text(m[1], "customerMessage"@, message)
        && member_is_text(m[2], "failureType"@, failure_type)
}

fn failure_map(failure_type: &str, message: &str) -> (r: Vec<(String, JsonNode)>)
    ensures
        failure_map_is(r@, failure_type@, message@),
{
    let mut m: Vec<(String, JsonNode)> = Vec::new();
    m.push(("_state".to_owned(), JsonNode::String("failure".to_owned())));
    m.push(("customerMessage".to_owned(), JsonNode::String(message.to_owned())));
    m.push(("failureType".to_owned(), JsonNode::String(failure_type.to_owned())));
    m
}

/// Whether `after` is `before` with `key` set to `text` when there is a text, else
/// unchanged.
pub open spec fn maybe_set(before: Seq<(String, JsonNode)>, after: Seq<(String, JsonNode)>, key: Seq<char>, text: Option<Seq<char>>) -> bool {
    match text {
        Some(t) => text_set(before, after, key, t),
        None => after == before,
    }
}

fn maybe_set_member(members: &mut Vec<(String, JsonNode)>, key: &str, value: Option<String>)
    ensures
        maybe_set(old(members)@, final(members)@, key@, crate::text::opt_text(value)),
{
    match value {
        Some(v) => set_text_member(members, key, v),
        None => {},
    }
}

/// Whether a sign-in result names an account: it has a `dsPersonId` or a `passwordToken`.
pub open spec fn names_account(result: Seq<(String, JsonNode)>) -> bool {
    members_get_from(result, "dsPersonId"@, 0) is Some || members_get_from(result, "passwordToken"@, 0) is Some
}

/// The final map of a sign-in: a result that names an account is marked `success` and
/// given its display name, email and region from the account details (see
/// [`spec_account_metadata`]), the region else the one a header named; any other result is
/// marked `failure`.
pub open spec fn spec_finish(result: Seq<(String, JsonNode)>, inferred: Option<Seq<char>>, out: Seq<(String, JsonNode)>) -> bool {
    let (name, email, region) = spec_account_metadata(result);
    if names_account(result) {
        exists|a: Seq<(String, JsonNode)>, b: Seq<(String, JsonNode)>, c: Seq<(String, JsonNode)>|
            #![trigger text_set(result, a, "_state"@, "success"@), maybe_set(a, b, "displayName"@, name), maybe_set(b, c, "email"@, email)]
            text_set(result, a, "_state"@, "success"@) && maybe_set(a, b, "displayName"@, name) && maybe_set(b, c, "email"@, email)
                && maybe_set(c, out, "region"@, remembered_region(region, inferred))
    } else {
        text_set(result, out, "_state"@, "failure"@)
    }
}

fn finish(result: Vec<(String, JsonNode)>, inferred: &Option<String>) -> (r: Vec<(String, JsonNode)>)
    ensures
        spec_finish(result@, crate::text::opt_text(*inferred), r@),
{
    let mut out = result;
    let ghost start = out@;
    let has = members_value(&out, "dsPersonId").is_some() || members_value(&out, "passwordToken").is_some();
    if has {
        let (name, email, region) = extract_account_metadata(&out);
        set_text_member(&mut out, "_state", "success".to_owned());
        let ghost a = out@;
        maybe_set_member(&mut out, "displayName", name);
        let ghost b = out@;
        maybe_set_member(&mut out, "email", email);
        let ghost c = out@;
        let chosen = match region {
            Some(r) => Some(r),
            None => match inferred {
                Some(r) => Some(r.clone()),
                None => None,
            },
        };
        maybe_set_member(&mut out, "region", chosen);
        assert(text_set(start, a, "_state"@, "success"@) && maybe_set(a, b, "displayName"@, spec_account_metadata(start).0)
            && maybe_set(b, c, "email"@, spec_account_metadata(start).1));
    } else {
        set_text_member(&mut out, "_state", "failure".to_owned());
    }
    out
}

/// The message of a redirect that cannot be followed.
pub open spec fn redirect_failure_message() -> Seq<char> {
    "Apple 登录重定向异常，请重新开始登录流程"@
}

/// The message of an answer that cannot be read.
pub open spec fn parse_failure_message() -> Seq<char> {
    "无法解析 Apple 的响应，请稍后重试"@
}

/// The kept answer of a sign-in as a sequence.
pub open spec fn kept_view(kept: Option<Vec<(String, JsonNode)>>) -> Option<Seq<(String, JsonNode)>> {
    match kept {
        Some(l) => Some(l@),
        None => None,
    }
}

/// The kept answer, else an empty map.
pub open spec fn kept_or_empty(kept: Option<Seq<(String, JsonNode)>>) -> Seq<(String, JsonNode)> {
    match kept {
        Some(l) => l,
        None => Seq::empty(),
    }
}

/// The region remembered after an answer: the one its header named, else the one
/// remembered before.
pub open spec fn remembered_region(named: Option<Seq<char>>, before: Option<Seq<char>>) -> Option<Seq<char>> {
    match named {
        Some(r) => Some(r),
        None => before,
    }
}

/// Whether an attempt moves on: an attempt before the fourth posts the next one; the
/// fourth finishes with the kept answer (else an empty map).
pub open spec fn moves_on(attempt: u32, kept: Option<Seq<(String, JsonNode)>>, inferred: Option<Seq<char>>, next_attempt: u32, next: AuthNext) -> bool {
    if attempt < 4 {
        next is Send && next_attempt == attempt + 1
    } else {
        next matches AuthNext::Done(m) && spec_finish(kept_or_empty(kept), inferred, m@)
    }
}

/// Whether a parsed answer is the first attempt's refusal of the credentials (`-5000`),
/// which is retried.
pub open spec fn retried_refusal(attempt: u32, result: Seq<(String, JsonNode)>) -> bool {
    attempt == 1 && json_text(members_get_from(result, "failureType"@, 0)) == Some("-5000"@)
}

/// What a sign-in does with an answer, whose store-front header named `region` (if any):
/// the region is remembered; a redirect is followed to its target (with the guid in its
/// query) or, without one, finishes with a redirect failure; a body that cannot be read
/// finishes with a parse failure; a body that reads (see [`apple_response_of`]) gets the
/// remembered region and is either kept and retried (see [`retried_refusal`]) or
/// finishes (see [`spec_finish`]).  Following a redirect or retrying moves on (see
/// [`moves_on`]).
pub open spec fn spec_after_answer(
    before: AuthProgress,
    region: Option<Seq<char>>,
    answer: AuthAnswer,
    guid: Seq<char>,
    after: AuthProgress,
    next: AuthNext,
) -> bool {
    let inferred = remembered_region(region, crate::text::opt_text(before.inferred_region));
    &&& crate::text::opt_text(after.inferred_region) == inferred
    &&& match answer {
        AuthAnswer::Redirect(Some(target)) => after.url@ == spec_guid_query(target@, guid)
            && moves_on(before.attempt, kept_view(before.last_result), inferred, after.attempt, next)
            && (next is Send ==> after.last_result == before.last_result),
        AuthAnswer::Redirect(None) => next matches AuthNext::Done(m) && failure_map_is(m@, "RedirectError"@, redirect_failure_message()),
        AuthAnswer::Body(body) => exists|parsed: Result<Vec<(String, JsonNode)>, String>| #![trigger apple_response_of(body@, parsed)]
            apple_response_of(body@, parsed) && match parsed {
                Err(_) => next matches AuthNext::Done(m) && failure_map_is(m@, "ParseError"@, parse_failure_message()),
                Ok(result) => exists|with_region: Seq<(String, JsonNode)>| #![trigger maybe_set(result@, with_region, "region"@, inferred)]
                    maybe_set(result@, with_region, "region"@, inferred) && if retried_refusal(before.attempt, result@) {
                        moves_on(before.attempt, Some(with_region), inferred, after.attempt, next) && after.url == before.url
                            && (next is Send ==> kept_view(after.last_result) == Some(with_region))
                    } else {
                        next matches AuthNext::Done(m) && spec_finish(with_region, inferred, m@)
                    },
            },
    }
}

/// A sign-in posts at most four attempts: after an answer it posts again only from an
/// attempt before the fourth, and then as the next attempt.
pub proof fn lemma_sign_in_attempts_bounded(
    before: AuthProgress,
    region: Option<Seq<char>>,
    answer: AuthAnswer,
    guid: Seq<char>,
    after: AuthProgress,
    next: AuthNext,
)
    requires
        1 <= before.attempt <= 4,
        spec_after_answer(before, region, answer, guid, after, next),
    ensures
        next is Send ==> before.attempt < 4 && after.attempt == before.attempt + 1,
{
}

fn move_on(progress: &mut AuthProgress) -> (r: AuthNext)
    requires
        1 <= old(progress).attempt <= 4,
    ensures
        moves_on(old(progress).attempt, kept_view(old(progress).last_result), crate::text::opt_text(old(progress).inferred_region), final(progress).attempt, r),
        final(progress).url == old(progress).url,
        final(progress).inferred_region == old(progress).inferred_region,
        r is Send ==> final(progress).last_result == old(progress).last_result,
        1 <= final(progress).attempt <= 4,
{
    if progress.attempt < 4 {
        progress.attempt = progress.attempt + 1;
        AuthNext::Send
    } else {
        let mut taken: Option<Vec<(String, JsonNode)>> = None;
        std::mem::swap(&mut taken, &mut progress.last_result);
        let kept = match taken {
            Some(l) => l,
            None => Vec::new(),
        };
        AuthNext::Done(finish(kept, &progress.inferred_region))
    }
}

fn copy_text(value: &Option<String>) -> (r: Option<String>)
    ensures
        crate::text::opt_text(r) == crate::text::opt_text(*value),
{
    match value {
        Some(v) => Some(v.clone()),
        None => None,
    }
}

/// What a sign-in does with an answer (see [`spec_after_answer`]).  A body must slice in
/// order (see [`plist_body_in_order`]); the host checks it first.
pub fn auth_after_answer(progress: &mut AuthProgress, region: Option<String>, answer: AuthAnswer, guid: &str) -> (r: AuthNext)
    requires
        1 <= old(progress).attempt <= 4,
        answer matches AuthAnswer::Body(b) ==> plist_body_in_order(b@),
    ensures
        spec_after_answer(*old(progress), crate::text::opt_text(region), answer, guid@, *final(progress), r),
        1 <= final(progress).attempt <= 4,
{
    match region {
        Some(r) => {
            progress.inferred_region = Some(r);
        },
        None => {},
    }
    match answer {
        AuthAnswer::Redirect(Some(target)) => {
            let ghost mid_attempt = progress.attempt;
            let ghost mid_kept = kept_view(progress.last_result);
            let ghost mid_inferred = crate::text::opt_text(progress.inferred_region);
            progress.url = ensure_guid_query(target.as_str(), guid);
            let next = move_on(&mut *progress);
            assert(moves_on(mid_attempt, mid_kept, mid_inferred, progress.attempt, next));
            next
        },
        AuthAnswer::Redirect(None) => AuthNext::Done(failure_map("RedirectError", "Apple 登录重定向异常，请重新开始登录流程")),
        AuthAnswer::Body(body) => {
            let parsed = parse_apple_plist_response(body.as_str());
            let ghost pv = parsed;
            match parsed {
                Err(_) => {
                    let next = AuthNext::Done(failure_map("ParseError", "无法解析 Apple 的响应，请稍后重试"));
                    next
                },
                Ok(result) => {
                    let ghost rv = result@;
                    let refused = progress.attempt == 1 && match members_value(&result, "failureType") {
                        Some(JsonNode::String(s)) => crate::apple::same_text(s.as_str(), "-5000"),
                        _ => false,
                    };
                    let mut with_region = result;
                    let inferred = copy_text(&progress.inferred_region);
                    maybe_set_member(&mut with_region, "region", inferred);
                    let ghost wv = with_region@;
                    let ghost inferred_now = remembered_region(crate::text::opt_text(region), crate::text::opt_text(old(progress).inferred_region));
                    assert(inferred_now == crate::text::opt_text(progress.inferred_region));
                    assert(maybe_set(rv, wv, "region"@, inferred_now));
                    assert(pv matches Ok(x) && x@ == rv);
                    assert(refused == retried_refusal(old(progress).attempt, rv));
                    if refused {
                        progress.last_result = Some(with_region);
                        let next = move_on(&mut *progress);
                        next
                    } else {
                        let next = AuthNext::Done(finish(with_region, &progress.inferred_region));
                        next
                    }
                },
            }
        },
    }
}

} // verus!
