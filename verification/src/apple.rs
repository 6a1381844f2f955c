//! Reading Apple's store responses: regions, account details, sign-in failures,
//! licence errors and the property-list bodies Apple answers with.
use vstd::prelude::*;
use vstd::string::StringSliceAdditionalSpecFns;
use base64::Engine;
use crate::json::{json_insert_position, json_members_insert, parse_json_object, json_object_parsed, JsonNode, JsonNumber, json_get, json_member, json_member_text, json_text, members_get_from, number_as_i64, number_as_u64};
use crate::models::{normalize_region_code, spec_region_code};
use crate::property_list::{PlistNode, decode_plist, encode_plist_xml, entries_view, plist_decoded, plist_xml};
use crate::text::{
    find_run, rfind_run, run_position_from, last_run_position, trim_end_white, trim_start_white,
    chars_of, contains_run, decimal, decimal_signed, opt_text, push_chars, push_str, seq_contains_run, seq_starts_with,
    spec_decimal, spec_decimal_signed, spec_join, join_strings, starts_with, string_from_chars, trim, trim_white,
};

verus! {

/// What `str::to_lowercase` makes of a text (the full Unicode lower-case mapping).
pub uninterp spec fn lower_text(s: Seq<char>) -> Seq<char>;

/// Whether every character is ASCII.
pub open spec fn ascii_text(s: Seq<char>) -> bool {
    forall|i: int| 0 <= i < s.len() ==> (#[trigger] s[i] as u32) < 128
}

/// The text in lower case.
///
/// Trusted: `str::to_lowercase`, whose result depends on the text alone.  On ASCII text
/// the Unicode mapping lowers `A`-`Z` one for one and keeps every other character, which
/// the second clause states; other texts are left to the name.
#[verifier::external_body]
pub fn to_lower(s: &str) -> (r: String)
    ensures
        r@ == lower_text(s@),
        ascii_text(s@) ==> r@ == Seq::new(s@.len(), |i: int| crate::delivery::ascii_lower(s@[i])),
{
    s.to_lowercase()
}

/// Whether two texts are equal.
pub fn same_text(a: &str, b: &str) -> (r: bool)
    ensures
        r == (a@ == b@),
{
    a.to_owned() == b.to_owned()
}

/// The region of an App Store storefront id.
pub open spec fn spec_storefront_region(code: Seq<char>) -> Option<Seq<char>> {
    if code == "143441"@ {
        Some("US"@)
    } else if code == "143465"@ {
        Some("CN"@)
    } else if code == "143462"@ {
        Some("JP"@)
    } else if code == "143444"@ {
        Some("GB"@)
    } else if code == "143443"@ {
        Some("DE"@)
    } else if code == "143442"@ {
        Some("FR"@)
    } else if code == "143455"@ {
        Some("CA"@)
    } else if code == "143460"@ {
        Some("AU"@)
    } else {
        None
    }
}

/// The region of an App Store storefront id (see [`spec_storefront_region`]).
pub fn storefront_region(code: &str) -> (r: Option<&'static str>)
    ensures
        match spec_storefront_region(code@) {
            Some(t) => r matches Some(s) && s@ == t,
            None => r is None,
        },
{
    if same_text(code, "143441") {
        Some("US")
    } else if same_text(code, "143465") {
        Some("CN")
    } else if same_text(code, "143462") {
        Some("JP")
    } else if same_text(code, "143444") {
        Some("GB")
    } else if same_text(code, "143443") {
        Some("DE")
    } else if same_text(code, "143442") {
        Some("FR")
    } else if same_text(code, "143455") {
        Some("CA")
    } else if same_text(code, "143460") {
        Some("AU")
    } else {
        None
    }
}

/// Whether a character is an ASCII letter.
pub open spec fn is_ascii_letter(c: char) -> bool {
    ('A' <= c <= 'Z') || ('a' <= c <= 'z')
}

/// The ASCII letters of a text, upper-cased, in order.
pub open spec fn upper_letters(s: Seq<char>) -> Seq<char>
    decreases s.len(),
{
    if s.len() == 0 {
        Seq::empty()
    } else {
        let rest = upper_letters(s.drop_last());
        let c = s.last();
        if 'a' <= c <= 'z' {
            rest.push(((c as u32) - 32) as char)
        } else if 'A' <= c <= 'Z' {
            rest.push(c)
        } else {
            rest
        }
    }
}

/// The leading ASCII digits of a text.
pub open spec fn leading_digits(s: Seq<char>) -> Seq<char>
    decreases s.len(),
{
    if s.len() > 0 && '0' <= s[0] <= '9' {
        seq![s[0]] + leading_digits(s.subrange(1, s.len() as int))
    } else {
        Seq::empty()
    }
}

/// A region read from a loose candidate: its ASCII letters upper-cased when there are two
/// or three of them, else the region of the storefront id it starts with.
pub open spec fn spec_region_candidate(raw: Seq<char>) -> Option<Seq<char>> {
    let t = trim_white(raw);
    let alpha = upper_letters(t);
    if t.len() == 0 {
        None
    } else if 2 <= alpha.len() <= 3 {
        Some(alpha)
    } else {
        spec_storefront_region(leading_digits(t))
    }
}

fn upper_letters_of(s: &Vec<char>) -> (r: Vec<char>)
    ensures
        r@ == upper_letters(s@),
{
    let mut out: Vec<char> = Vec::new();
    let mut i: usize = 0;
    while i < s.len()
        invariant
            i <= s@.len(),
            out@ == upper_letters(s@.subrange(0, i as int)),
        decreases s@.len() - i,
    {
        assert(s@.subrange(0, i + 1).drop_last() =~= s@.subrange(0, i as int));
        let c = s[i];
        if 'a' <= c && c <= 'z' {
            let code = (c as u32) - 32;
            proof {
                vstd::utf8::char_u32_cast(c, c as u32);
            }
            let upper = char_of_upper(code);
            out.push(upper);
        } else if 'A' <= c && c <= 'Z' {
            out.push(c);
        }
        i = i + 1;
    }
    assert(s@.subrange(0, s@.len() as int) =~= s@);
    out
}

fn char_of_upper(code: u32) -> (c: char)
    requires
        65 <= code <= 90,
    ensures
        c == code as char,
{
    let letters = chars_of("ABCDEFGHIJKLMNOPQRSTUVWXYZ");
    proof {
        reveal_strlit("ABCDEFGHIJKLMNOPQRSTUVWXYZ");
    }
    letters[(code - 65) as usize]
}

/// A region read from a loose candidate (see [`spec_region_candidate`]).
pub fn normalize_region_candidate(raw: &str) -> (r: Option<String>)
    ensures
        opt_text(r) == spec_region_candidate(raw@),
{
    let t = trim(raw);
    let cs = chars_of(t.as_str());
    if cs.len() == 0 {
        return None;
    }
    let alpha = upper_letters_of(&cs);
    if 2 <= alpha.len() && alpha.len() <= 3 {
        return Some(string_from_chars(alpha.as_slice()));
    }
    let mut k: usize = 0;
    assert(cs@.subrange(0, cs@.len() as int) =~= cs@);
    while k < cs.len() && '0' <= cs[k] && cs[k] <= '9'
        invariant
            k <= cs@.len(),
            leading_digits(cs@) == cs@.subrange(0, k as int) + leading_digits(cs@.subrange(k as int, cs@.len() as int)),
        decreases cs@.len() - k,
    {
        let ghost rest = cs@.subrange(k as int, cs@.len() as int);
        assert(rest.subrange(1, rest.len() as int) =~= cs@.subrange(k + 1, cs@.len() as int));
        assert(cs@.subrange(0, k + 1) =~= cs@.subrange(0, k as int) + seq![cs@[k as int]]);
        k = k + 1;
    }
    let digits = string_from_chars(crate::bundle::slice_chars(cs.as_slice(), 0, k).as_slice());
    match storefront_region(digits.as_str()) {
        Some(region) => Some(region.to_owned()),
        None => None,
    }
}

/// The keys that may hold an account's region, in the order they are tried.
pub open spec fn region_keys() -> Seq<Seq<char>> {
    seq!["countryCode"@, "countryISOCode"@, "country"@, "storefront"@, "storeFront"@, "storefrontId"@, "storeFrontId"@]
}

/// The first member among the region keys from key `k` on.
pub open spec fn first_region_member(members: Seq<(String, JsonNode)>, k: int) -> Option<JsonNode>
    decreases region_keys().len() - k,
{
    if k < 0 || k >= region_keys().len() {
        None
    } else {
        match members_get_from(members, region_keys()[k], 0) {
            Some(v) => Some(v),
            None => first_region_member(members, k + 1),
        }
    }
}

/// The region an object names: from the first region key it has, read as a candidate
/// when it is a string or a number.
pub open spec fn spec_region_of_object(members: Seq<(String, JsonNode)>) -> Option<Seq<char>> {
    match first_region_member(members, 0) {
        Some(JsonNode::String(s)) => spec_region_candidate(s@),
        Some(JsonNode::Number(n)) => spec_region_candidate(n.text@),
        _ => None,
    }
}

fn region_key(k: usize) -> (r: &'static str)
    requires
        k < 7,
    ensures
        r@ == region_keys()[k as int],
{
    if k == 0 { "countryCode" }
    else if k == 1 { "countryISOCode" }
    else if k == 2 { "country" }
    else if k == 3 { "storefront" }
    else if k == 4 { "storeFront" }
    else if k == 5 { "storefrontId" }
    else { "storeFrontId" }
}

/// The region an object names (see [`spec_region_of_object`]).
pub fn first_region_from_object(object: &Vec<(String, JsonNode)>) -> (r: Option<String>)
    ensures
        opt_text(r) == spec_region_of_object(object@),
{
    let mut k: usize = 0;
    while k < 7
        invariant
            k <= 7,
            region_keys().len() == 7,
            first_region_member(object@, 0) == first_region_member(object@, k as int),
        decreases 7 - k,
    {
        let key = region_key(k);
        let found = members_value(object, key);
        match found {
            Some(v) => {
                return match v {
                    JsonNode::String(s) => normalize_region_candidate(s.as_str()),
                    JsonNode::Number(n) => normalize_region_candidate(n.text.as_str()),
                    _ => None,
                };
            },
            None => {},
        }
        k = k + 1;
    }
    None
}

/// The member called `key` among object members.
pub fn members_value<'a>(members: &'a Vec<(String, JsonNode)>, key: &str) -> (r: Option<&'a JsonNode>)
    ensures
        match members_get_from(members@, key@, 0) {
            Some(v) => r matches Some(x) && *x == v,
            None => r is None,
        },
{
    let wanted = key.to_owned();
    let mut i: usize = 0;
    while i < members.len()
        invariant
            i <= members@.len(),
            wanted@ == key@,
            members_get_from(members@, key@, 0) == members_get_from(members@, key@, i as int),
        decreases members@.len() - i,
    {
        if members[i].0 == wanted {
            return Some(&members[i].1);
        }
        i = i + 1;
    }
    None
}

/// The text of the string member called `key`.
pub fn members_text(members: &Vec<(String, JsonNode)>, key: &str) -> (r: Option<String>)
    ensures
        opt_text(r) == json_text(members_get_from(members@, key@, 0)),
{
    match members_value(members, key) {
        Some(JsonNode::String(s)) => Some(s.clone()),
        _ => None,
    }
}

/// The members of the object member called `key`.
pub open spec fn object_member(members: Seq<(String, JsonNode)>, key: Seq<char>) -> Option<Seq<(String, JsonNode)>> {
    match members_get_from(members, key, 0) {
        Some(JsonNode::Object(m)) => Some(m@),
        _ => None,
    }
}

/// The given name parts that are present and not blank, in order.
pub open spec fn name_parts(first: Option<Seq<char>>, last: Option<Seq<char>>) -> Seq<Seq<char>> {
    let a: Seq<Seq<char>> = match first {
        Some(f) => if trim_white(f).len() > 0 { seq![f] } else { Seq::empty() },
        None => Seq::empty(),
    };
    let b: Seq<Seq<char>> = match last {
        Some(l) => if trim_white(l).len() > 0 { seq![l] } else { Seq::empty() },
        None => Seq::empty(),
    };
    a + b
}

/// The display name, Apple ID and region that a sign-in result tells about the account:
/// the name joins the non-blank first and last names of `accountInfo.address`, and the
/// region is that of the address, else that of `accountInfo`.
pub open spec fn spec_account_metadata(result: Seq<(String, JsonNode)>) -> (Option<Seq<char>>, Option<Seq<char>>, Option<Seq<char>>) {
    let info = object_member(result, "accountInfo"@);
    let email = match info {
        Some(a) => json_text(members_get_from(a, "appleId"@, 0)),
        None => None,
    };
    let address = match info {
        Some(a) => object_member(a, "address"@),
        None => None,
    };
    let name = match address {
        Some(ad) => {
            let joined = spec_join(
                name_parts(json_text(members_get_from(ad, "firstName"@, 0)), json_text(members_get_from(ad, "lastName"@, 0))),
                " "@,
            );
            if joined.len() == 0 { None } else { Some(joined) }
        },
        None => None,
    };
    let from_address = match address {
        Some(ad) => spec_region_of_object(ad),
        None => None,
    };
    let region = match from_address {
        Some(r) => Some(r),
        None => match info {
            Some(a) => spec_region_of_object(a),
            None => None,
        },
    };
    (name, email, region)
}

fn object_members<'a>(members: &'a Vec<(String, JsonNode)>, key: &str) -> (r: Option<&'a Vec<(String, JsonNode)>>)
    ensures
        match object_member(members@, key@) {
            Some(m) => r matches Some(v) && v@ == m,
            None => r is None,
        },
{
    match members_value(members, key) {
        Some(JsonNode::Object(m)) => Some(m),
        _ => None,
    }
}

/// The display name, Apple ID and region of a sign-in result (see
/// [`spec_account_metadata`]).
pub fn extract_account_metadata(result: &Vec<(String, JsonNode)>) -> (r: (Option<String>, Option<String>, Option<String>))
    ensures
        (opt_text(r.0), opt_text(r.1), opt_text(r.2)) == spec_account_metadata(result@),
{
    let info = object_members(result, "accountInfo");
    let email = match info {
        Some(a) => members_text(a, "appleId"),
        None => None,
    };
    let address = match info {
        Some(a) => object_members(a, "address"),
        None => None,
    };
    let name = match address {
        Some(ad) => {
            let mut parts: Vec<String> = Vec::new();
            match members_text(ad, "firstName") {
                Some(f) => if !trim(f.as_str()).as_str().is_empty() { parts.push(f); },
                None => {},
            }
            let ghost after_first = parts.deep_view();
            match members_text(ad, "lastName") {
                Some(l) => if !trim(l.as_str()).as_str().is_empty() { parts.push(l); },
                None => {},
            }
            assert(parts.deep_view() =~= name_parts(
                json_text(members_get_from(ad@, "firstName"@, 0)),
                json_text(members_get_from(ad@, "lastName"@, 0)),
            ));
            let joined = join_strings(&parts, " ");
            if joined.as_str().is_empty() { None } else { Some(joined) }
        },
        None => None,
    };
    let from_address = match address {
        Some(ad) => first_region_from_object(ad),
        None => None,
    };
    let region = match from_address {
        Some(r) => Some(r),
        None => match info {
            Some(a) => first_region_from_object(a),
            None => None,
        },
    };
    (name, email, region)
}

/// The region of a sign-in: the result's `region` when it is a region code, else the
/// fallback when it is one, else `US`.
pub open spec fn spec_resolved_region(result: Seq<(String, JsonNode)>, fallback: Option<Seq<char>>) -> Seq<char> {
    let from_result = match json_text(members_get_from(result, "region"@, 0)) {
        Some(t) => spec_region_code(t),
        None => None,
    };
    match from_result {
        Some(r) => r,
        None => match fallback {
            Some(f) => match spec_region_code(f) {
                Some(r) => r,
                None => "US"@,
            },
            None => "US"@,
        },
    }
}

/// The region of a sign-in (see [`spec_resolved_region`]).
pub fn resolved_account_region(result: &Vec<(String, JsonNode)>, fallback: Option<String>) -> (r: String)
    ensures
        r@ == spec_resolved_region(result@, opt_text(fallback)),
{
    let from_result = match members_text(result, "region") {
        Some(t) => normalize_region_code(t.as_str()),
        None => None,
    };
    match from_result {
        Some(r) => r,
        None => match fallback {
            Some(f) => match normalize_region_code(f.as_str()) {
                Some(r) => r,
                None => "US".to_owned(),
            },
            None => "US".to_owned(),
        },
    }
}

/// Whether `needle` occurs in the text.
pub fn has_text(hay: &str, needle: &str) -> (r: bool)
    ensures
        r == seq_contains_run(hay@, needle@),
{
    let h = chars_of(hay);
    let n = chars_of(needle);
    contains_run(h.as_slice(), n.as_slice())
}

/// The text of the string member called `key`, or the empty text.
pub open spec fn text_or_empty(members: Seq<(String, JsonNode)>, key: Seq<char>) -> Seq<char> {
    match json_text(members_get_from(members, key, 0)) {
        Some(t) => t,
        None => Seq::empty(),
    }
}

fn member_text_or_empty(members: &Vec<(String, JsonNode)>, key: &str) -> (r: String)
    ensures
        r@ == text_or_empty(members@, key@),
{
    match members_text(members, key) {
        Some(t) => t,
        None => String::new(),
    }
}

/// Whether a lower-cased message asks for a second factor.
pub open spec fn mentions_mfa(message: Seq<char>) -> bool {
    seq_contains_run(message, "verification code"@) || seq_contains_run(message, "two-factor"@)
        || seq_contains_run(message, "two step"@) || seq_contains_run(message, "two-step"@)
        || seq_contains_run(message, "2fa"@) || seq_contains_run(message, "mfa"@)
}

/// Whether a failure type asks for a second factor.
pub open spec fn failure_asks_mfa(failure_type: Seq<char>) -> bool {
    seq_contains_run(failure_type, "verificationCode"@) || seq_contains_run(failure_type, "authCode"@)
        || failure_type == "-22938"@ || failure_type == "-20101"@
}

/// Whether a message is Apple's bad-login message of the configurator.
pub open spec fn is_configurator_bad_login(message: Seq<char>) -> bool {
    message == "MZFinance.BadLogin.Configurator_message"@ || message == "MZFinance.BadLogin.Configurator.message"@
}

/// A message in lower case: letter by letter for ASCII text, else `str::to_lowercase`'s
/// mapping (see [`lower_text`]).
pub open spec fn lowered_message(m: Seq<char>) -> Seq<char> {
    if ascii_text(m) {
        Seq::new(m.len(), |i: int| crate::delivery::ascii_lower(m[i]))
    } else {
        lower_text(m)
    }
}

/// Why a sign-in failed: the trimmed failure type, the message for the user, and whether
/// a second factor is needed.
pub open spec fn spec_auth_failure(result: Seq<(String, JsonNode)>, has_mfa: bool) -> (Seq<char>, Seq<char>, bool) {
    let failure_type = trim_white(text_or_empty(result, "failureType"@));
    let message = trim_white(text_or_empty(result, "customerMessage"@));
    let bad_login_without_mfa = !has_mfa && failure_type.len() == 0 && is_configurator_bad_login(message);
    let mfa_message = mentions_mfa(lowered_message(message));
    let mfa_failure = failure_asks_mfa(failure_type);
    let needs_mfa = bad_login_without_mfa || mfa_message || mfa_failure;
    let user_message = if bad_login_without_mfa {
        "此账号需要二次验证，请在验证码输入框输入 6 位验证码后再次点击登录"@
    } else if mfa_message || mfa_failure {
        if has_mfa { "验证码无效、已过期，或当前验证会话已失效，请检查后重试"@ } else { message }
    } else if is_configurator_bad_login(message) || seq_starts_with(message, "MZFinance.BadLogin"@) {
        "账号或密码错误，请检查后重试"@
    } else if seq_contains_run(message, "account.locked"@) || seq_contains_run(message, "account disabled"@) {
        "账号已被锁定或停用"@
    } else if seq_contains_run(message, "rate.limit"@) || seq_contains_run(message, "too many"@) {
        "登录尝试过于频繁，请稍后再试"@
    } else if message.len() > 0 {
        message
    } else if failure_type.len() > 0 {
        failure_type
    } else {
        "登录失败，Apple 未返回具体错误信息"@
    };
    (failure_type, user_message, needs_mfa)
}

proof fn lemma_no_run_pair(h: Seq<char>, needle: Seq<char>)
    requires
        needle.len() >= 2,
        forall|i: int| 0 <= i < h.len() - 1 ==> !(#[trigger] h[i] == needle[0] && h[i + 1] == needle[1]),
    ensures
        !seq_contains_run(h, needle),
{
    assert forall|i: int| 0 <= i && i + needle.len() <= h.len() implies #[trigger] h.subrange(i, i + needle.len()) != needle by {
        if h.subrange(i, i + needle.len()) == needle {
            assert(h.subrange(i, i + needle.len())[0] == needle[0]);
            assert(h.subrange(i, i + needle.len())[1] == needle[1]);
        }
    }
}

proof fn lemma_text_no_mfa(h: Seq<char>)
    requires
        forall|i: int| 0 <= i < h.len() - 1 ==> !(#[trigger] h[i] == 'v' && h[i + 1] == 'e'),
        forall|i: int| 0 <= i < h.len() - 1 ==> !(#[trigger] h[i] == 't' && h[i + 1] == 'w'),
        forall|i: int| 0 <= i < h.len() - 1 ==> !(#[trigger] h[i] == '2' && h[i + 1] == 'f'),
        forall|i: int| 0 <= i < h.len() - 1 ==> !(#[trigger] h[i] == 'm' && h[i + 1] == 'f'),
    ensures
        !mentions_mfa(h),
{
    reveal_strlit("verification code");
    reveal_strlit("two-factor");
    reveal_strlit("two step");
    reveal_strlit("two-step");
    reveal_strlit("2fa");
    reveal_strlit("mfa");
    lemma_no_run_pair(h, "verification code"@);
    lemma_no_run_pair(h, "two-factor"@);
    lemma_no_run_pair(h, "two step"@);
    lemma_no_run_pair(h, "two-step"@);
    lemma_no_run_pair(h, "2fa"@);
    lemma_no_run_pair(h, "mfa"@);
}

/// The configurator's bad-login message does not mention a second factor.
proof fn lemma_bad_login_message_no_mfa(m: Seq<char>)
    requires
        is_configurator_bad_login(m),
    ensures
        !mentions_mfa(lowered_message(m)),
{
    reveal_strlit("MZFinance.BadLogin.Configurator_message");
    reveal_strlit("MZFinance.BadLogin.Configurator.message");
    assert(ascii_text(m));
    let h = lowered_message(m);
    assert forall|i: int| 0 <= i < h.len() - 1 implies !(#[trigger] h[i] == 'v' && h[i + 1] == 'e') by {}
    assert forall|i: int| 0 <= i < h.len() - 1 implies !(#[trigger] h[i] == 't' && h[i + 1] == 'w') by {}
    assert forall|i: int| 0 <= i < h.len() - 1 implies !(#[trigger] h[i] == '2' && h[i + 1] == 'f') by {}
    assert forall|i: int| 0 <= i < h.len() - 1 implies !(#[trigger] h[i] == 'm' && h[i + 1] == 'f') by {}
    lemma_text_no_mfa(h);
}

/// The configurator's bad-login message with no failure type means different things with
/// and without a verification code: without one the account needs a second factor and the
/// user is asked for the code; with one the sign-in is refused as wrong credentials and no
/// second factor is asked for.
pub proof fn lemma_configurator_bad_login(result: Seq<(String, JsonNode)>)
    requires
        trim_white(text_or_empty(result, "failureType"@)).len() == 0,
        is_configurator_bad_login(trim_white(text_or_empty(result, "customerMessage"@))),
    ensures
        spec_auth_failure(result, false).2,
        spec_auth_failure(result, false).1 == "此账号需要二次验证，请在验证码输入框输入 6 位验证码后再次点击登录"@,
        !spec_auth_failure(result, true).2,
        spec_auth_failure(result, true).1 == "账号或密码错误，请检查后重试"@,
{
    reveal_strlit("verificationCode");
    reveal_strlit("authCode");
    reveal_strlit("-22938");
    reveal_strlit("-20101");
    let f = trim_white(text_or_empty(result, "failureType"@));
    assert(!seq_contains_run(f, "verificationCode"@));
    assert(!seq_contains_run(f, "authCode"@));
    lemma_bad_login_message_no_mfa(trim_white(text_or_empty(result, "customerMessage"@)));
}

/// Why a sign-in failed (see [`spec_auth_failure`]).
pub fn apple_auth_failure_details(result: &Vec<(String, JsonNode)>, has_mfa: bool) -> (r: (String, String, bool))
    ensures
        (r.0@, r.1@, r.2) == spec_auth_failure(result@, has_mfa),
{
    let failure_type = trim(member_text_or_empty(result, "failureType").as_str());
    let message = trim(member_text_or_empty(result, "customerMessage").as_str());
    let normalized = to_lower(message.as_str());
    assert(normalized@ == lowered_message(message@));
    let configurator = same_text(message.as_str(), "MZFinance.BadLogin.Configurator_message")
        || same_text(message.as_str(), "MZFinance.BadLogin.Configurator.message");
    let bad_login_without_mfa = !has_mfa && failure_type.as_str().is_empty() && configurator;
    let n = normalized.as_str();
    let mfa_message = has_text(n, "verification code") || has_text(n, "two-factor") || has_text(n, "two step")
        || has_text(n, "two-step") || has_text(n, "2fa") || has_text(n, "mfa");
    let f = failure_type.as_str();
    let mfa_failure = has_text(f, "verificationCode") || has_text(f, "authCode") || same_text(f, "-22938")
        || same_text(f, "-20101");
    let needs_mfa = bad_login_without_mfa || mfa_message || mfa_failure;
    let m = message.as_str();
    let mc = chars_of(m);
    let user_message = if bad_login_without_mfa {
        "此账号需要二次验证，请在验证码输入框输入 6 位验证码后再次点击登录".to_owned()
    } else if mfa_message || mfa_failure {
        if has_mfa { "验证码无效、已过期，或当前验证会话已失效，请检查后重试".to_owned() } else { message.clone() }
    } else if configurator || starts_with(mc.as_slice(), chars_of("MZFinance.BadLogin").as_slice()) {
        "账号或密码错误，请检查后重试".to_owned()
    } else if has_text(m, "account.locked") || has_text(m, "account disabled") {
        "账号已被锁定或停用".to_owned()
    } else if has_text(m, "rate.limit") || has_text(m, "too many") {
        "登录尝试过于频繁，请稍后再试".to_owned()
    } else if !m.is_empty() {
        message.clone()
    } else if !f.is_empty() {
        failure_type.clone()
    } else {
        "登录失败，Apple 未返回具体错误信息".to_owned()
    };
    (failure_type, user_message, needs_mfa)
}

/// The phrases that mark an expired or invalid session.
pub open spec fn session_error_patterns() -> Seq<Seq<char>> {
    seq![
        "session expired"@, "session invalid"@, "invalid session"@, "unauthorized"@, "authentication failed"@,
        "token expired"@, "invalid token"@, "not authenticated"@,
    ]
}

/// The first member present among `failureType`, `customerMessage` and `message`.
pub open spec fn first_error_member(result: Seq<(String, JsonNode)>) -> Option<JsonNode> {
    match members_get_from(result, "failureType"@, 0) {
        Some(v) => Some(v),
        None => match members_get_from(result, "customerMessage"@, 0) {
            Some(v) => Some(v),
            None => members_get_from(result, "message"@, 0),
        },
    }
}

/// Whether a store result reports an expired or invalid session: the first error member
/// present, when it is a string, contains one of the session phrases once lower-cased.
pub open spec fn spec_is_session_error(result: Seq<(String, JsonNode)>) -> bool {
    let message = lower_text(match json_text(first_error_member(result)) {
        Some(t) => t,
        None => Seq::empty(),
    });
    exists|i: int| 0 <= i < session_error_patterns().len() && seq_contains_run(message, #[trigger] session_error_patterns()[i])
}

fn session_pattern(k: usize) -> (r: &'static str)
    requires
        k < 8,
    ensures
        r@ == session_error_patterns()[k as int],
{
    if k == 0 { "session expired" }
    else if k == 1 { "session invalid" }
    else if k == 2 { "invalid session" }
    else if k == 3 { "unauthorized" }
    else if k == 4 { "authentication failed" }
    else if k == 5 { "token expired" }
    else if k == 6 { "invalid token" }
    else { "not authenticated" }
}

/// Whether a store result reports an expired or invalid session (see
/// [`spec_is_session_error`]).
pub fn is_session_error(result: &Vec<(String, JsonNode)>) -> (r: bool)
    ensures
        r == spec_is_session_error(result@),
{
    let first = match members_value(result, "failureType") {
        Some(v) => Some(v),
        None => match members_value(result, "customerMessage") {
            Some(v) => Some(v),
            None => members_value(result, "message"),
        },
    };
    let raw = match first {
        Some(JsonNode::String(s)) => s.clone(),
        _ => String::new(),
    };
    let message = to_lower(raw.as_str());
    assert(raw@ == (match json_text(first_error_member(result@)) {
        Some(t) => t,
        None => Seq::<char>::empty(),
    }));
    let mut k: usize = 0;
    while k < 8
        invariant
            k <= 8,
            session_error_patterns().len() == 8,
            message@ == lower_text(raw@),
            raw@ == (match json_text(first_error_member(result@)) {
                Some(t) => t,
                None => Seq::<char>::empty(),
            }),
            forall|i: int| 0 <= i < k ==> !seq_contains_run(message@, #[trigger] session_error_patterns()[i]),
        decreases 8 - k,
    {
        if has_text(message.as_str(), session_pattern(k)) {
            return true;
        }
        k = k + 1;
    }
    false
}

/// The licence error phrases and the messages shown for them, in the order tried.
pub open spec fn license_errors() -> Seq<(Seq<char>, Seq<char>)> {
    seq![
        ("license not found"@, "您尚未购买此应用，正在尝试免费获取..."@),
        ("not found"@, "未找到此应用，请检查 App ID 是否正确"@),
        ("not purchased"@, "您尚未购买此应用"@),
        ("未购买"@, "您尚未购买此应用"@),
        ("未找到"@, "未找到此应用"@),
        ("unauthorized"@, "无权下载此应用"@),
        ("invalid request"@, "无效的请求"@),
        ("item not found"@, "未找到此应用"@),
        ("store front mismatch"@, "账号区域与应用不匹配"@),
        ("store front error"@, "账号区域错误，请切换账号区域"@),
    ]
}

/// The first licence message, from entry `k` on, whose phrase occurs in the message.
pub open spec fn license_message_from(message: Seq<char>, k: int) -> Option<Seq<char>>
    decreases license_errors().len() - k,
{
    if k < 0 || k >= license_errors().len() {
        None
    } else if seq_contains_run(message, license_errors()[k].0) {
        Some(license_errors()[k].1)
    } else {
        license_message_from(message, k + 1)
    }
}

/// The message shown for a failed licence request: the first licence message whose phrase
/// occurs in `<customerMessage> <failureType>` lower-cased, else the customer message.
pub open spec fn spec_license_error(result: Seq<(String, JsonNode)>) -> Seq<char> {
    let customer = text_or_empty(result, "customerMessage"@);
    let failure = text_or_empty(result, "failureType"@);
    match license_message_from(lower_text(customer + " "@ + failure), 0) {
        Some(m) => m,
        None => customer,
    }
}

fn license_error(k: usize) -> (r: (&'static str, &'static str))
    requires
        k < 10,
    ensures
        (r.0@, r.1@) == license_errors()[k as int],
{
    if k == 0 { ("license not found", "您尚未购买此应用，正在尝试免费获取...") }
    else if k == 1 { ("not found", "未找到此应用，请检查 App ID 是否正确") }
    else if k == 2 { ("not purchased", "您尚未购买此应用") }
    else if k == 3 { ("未购买", "您尚未购买此应用") }
    else if k == 4 { ("未找到", "未找到此应用") }
    else if k == 5 { ("unauthorized", "无权下载此应用") }
    else if k == 6 { ("invalid request", "无效的请求") }
    else if k == 7 { ("item not found", "未找到此应用") }
    else if k == 8 { ("store front mismatch", "账号区域与应用不匹配") }
    else { ("store front error", "账号区域错误，请切换账号区域") }
}

/// The message shown for a failed licence request (see [`spec_license_error`]).
pub fn get_license_error_message(result: &Vec<(String, JsonNode)>) -> (r: String)
    ensures
        r@ == spec_license_error(result@),
{
    let customer = member_text_or_empty(result, "customerMessage");
    let failure = member_text_or_empty(result, "failureType");
    let mut buf: Vec<char> = Vec::new();
    push_str(&mut buf, customer.as_str());
    push_str(&mut buf, " ");
    push_str(&mut buf, failure.as_str());
    let joined = string_from_chars(buf.as_slice());
    let message = to_lower(joined.as_str());
    let mut k: usize = 0;
    while k < 10
        invariant
            k <= 10,
            license_errors().len() == 10,
            message@ == lower_text(customer@ + " "@ + failure@),
            customer@ == text_or_empty(result@, "customerMessage"@),
            failure@ == text_or_empty(result@, "failureType"@),
            license_message_from(message@, 0) == license_message_from(message@, k as int),
        decreases 10 - k,
    {
        let (key, text) = license_error(k);
        if has_text(message.as_str(), key) {
            return text.to_owned();
        }
        k = k + 1;
    }
    customer
}

/// How a signature entry is summarised: its id (an integer in decimal, a string as is,
/// else `idx<position>`) and the byte length of its base64 text.
pub open spec fn sinf_summary(sinf: JsonNode, index: nat) -> Seq<char> {
    let id = match json_get(sinf, "id"@) {
        Some(JsonNode::Number(n)) => match number_as_i64(n) {
            Some(i) => spec_decimal_signed(i),
            None => match number_as_u64(n) {
                Some(u) => spec_decimal(u as nat),
                None => "idx"@ + spec_decimal(index),
            },
        },
        Some(JsonNode::String(t)) => t@,
        _ => "idx"@ + spec_decimal(index),
    };
    let len: nat = match json_text(json_get(sinf, "sinf"@)) {
        Some(t) => vstd::utf8::encode_utf8(t).len(),
        None => 0,
    };
    "id="@ + id + " len="@ + spec_decimal(len)
}

/// The summaries of the signature entries, in order.
pub open spec fn sinf_summaries(items: Seq<JsonNode>) -> Seq<Seq<char>>
    decreases items.len(),
{
    if items.len() == 0 {
        Seq::empty()
    } else {
        sinf_summaries(items.drop_last()).push(sinf_summary(items.last(), (items.len() - 1) as nat))
    }
}

/// A one-line summary of a download response's signatures.
pub open spec fn spec_sinfs_summary(song_list: Seq<(String, JsonNode)>) -> Seq<char> {
    match members_get_from(song_list, "sinfs"@, 0) {
        Some(JsonNode::Array(items)) => if items@.len() == 0 {
            "sinfs=0"@
        } else {
            "sinfs="@ + spec_decimal(items@.len()) + " ["@ + spec_join(sinf_summaries(items@), ", "@) + "]"@
        },
        _ => "sinfs=missing"@,
    }
}

fn sinf_summary_text(sinf: &JsonNode, index: usize) -> (r: String)
    ensures
        r@ == sinf_summary(*sinf, index as nat),
{
    let mut idx: Vec<char> = Vec::new();
    push_str(&mut idx, "idx");
    push_chars(&mut idx, decimal(index as u64).as_slice());
    let id: Vec<char> = match json_member(sinf, "id") {
        Some(JsonNode::Number(n)) => match n.integer {
            Some(i) => {
                if -9223372036854775808i128 <= i && i <= 9223372036854775807i128 {
                    decimal_signed(i as i64)
                } else if 0 <= i && i <= 18446744073709551615i128 {
                    decimal(i as u64)
                } else {
                    idx
                }
            },
            None => idx,
        },
        Some(JsonNode::String(t)) => chars_of(t.as_str()),
        _ => idx,
    };
    let len: usize = match json_member(sinf, "sinf") {
        Some(JsonNode::String(t)) => t.as_str().as_bytes().len(),
        _ => 0,
    };
    let mut buf: Vec<char> = Vec::new();
    push_str(&mut buf, "id=");
    push_chars(&mut buf, id.as_slice());
    push_str(&mut buf, " len=");
    push_chars(&mut buf, decimal(len as u64).as_slice());
    string_from_chars(buf.as_slice())
}

/// A one-line summary of a download response's signatures (see [`spec_sinfs_summary`]).
pub fn summarize_song_list_sinfs(song_list: &Vec<(String, JsonNode)>) -> (r: String)
    ensures
        r@ == spec_sinfs_summary(song_list@),
{
    let items = match members_value(song_list, "sinfs") {
        Some(JsonNode::Array(items)) => items,
        _ => return "sinfs=missing".to_owned(),
    };
    if items.len() == 0 {
        return "sinfs=0".to_owned();
    }
    let mut parts: Vec<String> = Vec::new();
    let mut i: usize = 0;
    while i < items.len()
        invariant
            i <= items@.len(),
            parts.deep_view() == sinf_summaries(items@.subrange(0, i as int)),
        decreases items@.len() - i,
    {
        assert(items@.subrange(0, i + 1).drop_last() =~= items@.subrange(0, i as int));
        let part = sinf_summary_text(&items[i], i);
        let ghost before = parts.deep_view();
        parts.push(part);
        assert(parts.deep_view() =~= before.push(part@));
        i = i + 1;
    }
    assert(items@.subrange(0, items@.len() as int) =~= items@);
    let mut buf: Vec<char> = Vec::new();
    push_str(&mut buf, "sinfs=");
    push_chars(&mut buf, decimal(items.len() as u64).as_slice());
    push_str(&mut buf, " [");
    push_str(&mut buf, join_strings(&parts, ", ").as_str());
    push_str(&mut buf, "]");
    string_from_chars(buf.as_slice())
}

/// The artwork of an app's metadata: `artworkUrl60`, else `artworkUrl512`, else
/// `artworkUrl100`, else the empty text.
pub open spec fn spec_artwork(metadata: Seq<(String, JsonNode)>) -> Seq<char> {
    match json_text(members_get_from(metadata, "artworkUrl60"@, 0)) {
        Some(u) => u,
        None => match json_text(members_get_from(metadata, "artworkUrl512"@, 0)) {
            Some(u) => u,
            None => text_or_empty(metadata, "artworkUrl100"@),
        },
    }
}

/// The artwork of an app's metadata (see [`spec_artwork`]).
pub fn get_artwork_from_map(metadata: &Vec<(String, JsonNode)>) -> (r: String)
    ensures
        r@ == spec_artwork(metadata@),
{
    match members_text(metadata, "artworkUrl60") {
        Some(u) => u,
        None => match members_text(metadata, "artworkUrl512") {
            Some(u) => u,
            None => member_text_or_empty(metadata, "artworkUrl100"),
        },
    }
}

/// The id a JSON member holds: an integer in decimal, or a string as is.
pub open spec fn id_text(node: Option<JsonNode>) -> Option<Seq<char>> {
    match node {
        Some(JsonNode::Number(n)) => match number_as_i64(n) {
            Some(i) => Some(spec_decimal_signed(i)),
            None => match number_as_u64(n) {
                Some(u) => Some(spec_decimal(u as nat)),
                None => None,
            },
        },
        Some(JsonNode::String(t)) => Some(t@),
        _ => None,
    }
}

/// The track id of an App Store search result: its `trackId`, else its `id`, else the
/// digits after the first `/id` of its `trackViewUrl` (when there are any), else the
/// empty text.
pub open spec fn spec_track_id(app: JsonNode) -> Seq<char> {
    match id_text(json_get(app, "trackId"@)) {
        Some(t) => t,
        None => match id_text(json_get(app, "id"@)) {
            Some(t) => t,
            None => match json_text(json_get(app, "trackViewUrl"@)) {
                Some(url) => match run_position_from(url, "/id"@, 0) {
                    Some(p) => leading_digits(url.subrange(p + 3, url.len() as int)),
                    None => Seq::empty(),
                },
                None => Seq::empty(),
            },
        },
    }
}

fn id_of(node: Option<&JsonNode>) -> (r: Option<String>)
    ensures
        opt_text(r) == id_text(match node {
            Some(n) => Some(*n),
            None => None,
        }),
{
    match node {
        Some(JsonNode::Number(n)) => match n.integer {
            Some(i) => {
                if -9223372036854775808i128 <= i && i <= 9223372036854775807i128 {
                    Some(string_from_chars(decimal_signed(i as i64).as_slice()))
                } else if 0 <= i && i <= 18446744073709551615i128 {
                    Some(string_from_chars(decimal(i as u64).as_slice()))
                } else {
                    None
                }
            },
            None => None,
        },
        Some(JsonNode::String(t)) => Some(t.clone()),
        _ => None,
    }
}

fn leading_digits_of(s: &[char], from: usize) -> (r: Vec<char>)
    requires
        from <= s@.len(),
    ensures
        r@ == leading_digits(s@.subrange(from as int, s@.len() as int)),
{
    let mut k = from;
    let ghost t = s@.subrange(from as int, s@.len() as int);
    assert(t.subrange(0, t.len() as int) =~= t);
    while k < s.len() && '0' <= s[k] && s[k] <= '9'
        invariant
            from <= k <= s@.len(),
            t == s@.subrange(from as int, s@.len() as int),
            leading_digits(t) == s@.subrange(from as int, k as int) + leading_digits(s@.subrange(k as int, s@.len() as int)),
        decreases s@.len() - k,
    {
        let ghost rest = s@.subrange(k as int, s@.len() as int);
        assert(rest.subrange(1, rest.len() as int) =~= s@.subrange(k + 1, s@.len() as int));
        assert(s@.subrange(from as int, k + 1) =~= s@.subrange(from as int, k as int) + seq![s@[k as int]]);
        k = k + 1;
    }
    crate::bundle::slice_chars(s, from, k)
}

/// The track id of an App Store search result (see [`spec_track_id`]).
pub fn extract_itunes_track_id(app: &JsonNode) -> (r: String)
    ensures
        r@ == spec_track_id(*app),
{
    match id_of(json_member(app, "trackId")) {
        Some(t) => t,
        None => match id_of(json_member(app, "id")) {
            Some(t) => t,
            None => match json_member_text(app, "trackViewUrl") {
                Some(url) => {
                    let cs = chars_of(url.as_str());
                    let marker = chars_of("/id");
                    proof { reveal_strlit("/id"); }
                    assert(marker@.len() == 3);
                    match find_run(cs.as_slice(), marker.as_slice()) {
                        Some(p) => {
                            let n = cs.len();
                            assert(p + 3 <= n);
                            string_from_chars(leading_digits_of(cs.as_slice(), p + 3).as_slice())
                        },
                        None => String::new(),
                    }
                },
                None => String::new(),
            },
        },
    }
}

/// An endpoint with the device guid in its query: unchanged when it already names a guid,
/// else with `&guid=<guid>` (when it has a query) or `?guid=<guid>` appended.
pub open spec fn spec_guid_query(endpoint: Seq<char>, guid: Seq<char>) -> Seq<char> {
    if seq_contains_run(endpoint, "guid="@) {
        endpoint
    } else if seq_contains_run(endpoint, "?"@) {
        endpoint + "&guid="@ + guid
    } else {
        endpoint + "?guid="@ + guid
    }
}

/// An endpoint with the device guid in its query (see [`spec_guid_query`]).
pub fn ensure_guid_query(endpoint: &str, guid: &str) -> (r: String)
    ensures
        r@ == spec_guid_query(endpoint@, guid@),
{
    if has_text(endpoint, "guid=") {
        return endpoint.to_owned();
    }
    let mut buf: Vec<char> = Vec::new();
    push_str(&mut buf, endpoint);
    if has_text(endpoint, "?") {
        push_str(&mut buf, "&guid=");
    } else {
        push_str(&mut buf, "?guid=");
    }
    push_str(&mut buf, guid);
    string_from_chars(buf.as_slice())
}

/// The part of `s` from the first `open` to the end of the last `close`, when both occur.
pub open spec fn enclosed(s: Seq<char>, open: Seq<char>, close: Seq<char>) -> Option<(int, int)> {
    match (run_position_from(s, open, 0), last_run_position(s, close)) {
        (Some(a), Some(b)) => Some((a, b + close.len())),
        _ => None,
    }
}

/// Whether normalising a body slices in order: when the `<plist` / `</plist>` (or,
/// failing those, the `<dict` / `</dict>`) markers are used, the opening one does not
/// come after the end of the closing one.
pub open spec fn plist_body_in_order(body: Seq<char>) -> bool {
    let t = trim_white(body);
    match enclosed(t, "<plist"@, "</plist>"@) {
        Some((a, b)) => a <= b,
        None => match enclosed(t, "<dict"@, "</dict>"@) {
            Some((a, b)) => a <= b,
            None => true,
        },
    }
}

/// A best-effort property-list body of Apple's answer: the trimmed text from `<plist` to
/// `</plist>` (or from `<dict` to `</dict>`), a bare sequence of `<key>`s wrapped in
/// `<dict>`, or the trimmed text itself.
pub open spec fn spec_plist_body(body: Seq<char>) -> Seq<char> {
    let t = trim_white(body);
    if t.len() == 0 {
        Seq::empty()
    } else {
        match enclosed(t, "<plist"@, "</plist>"@) {
            Some((a, b)) => trim_white(t.subrange(a, b)),
            None => match enclosed(t, "<dict"@, "</dict>"@) {
                Some((a, b)) => trim_white(t.subrange(a, b)),
                None => if seq_contains_run(t, "<key>"@) { "<dict>"@ + t + "</dict>"@ } else { t },
            },
        }
    }
}

fn slice_between(t: &Vec<char>, open: &str, close: &str) -> (r: Option<(usize, usize)>)
    ensures
        match enclosed(t@, open@, close@) {
            Some((a, b)) => r matches Some((x, y)) && x as int == a && y as int == b && b <= t@.len(),
            None => r is None,
        },
{
    let o = chars_of(open);
    let c = chars_of(close);
    let first = find_run(t.as_slice(), o.as_slice());
    let last = rfind_run(t.as_slice(), c.as_slice());
    match (first, last) {
        (Some(a), Some(b)) => {
            let n = t.len();
            assert(b + c@.len() <= n);
            Some((a, b + c.len()))
        },
        _ => None,
    }
}

/// Whether normalising a body slices in order (see [`plist_body_in_order`]).
pub fn apple_body_in_order(body: &str) -> (r: bool)
    ensures
        r == plist_body_in_order(body@),
{
    let trimmed = trim(body);
    let t = chars_of(trimmed.as_str());
    match slice_between(&t, "<plist", "</plist>") {
        Some((a, b)) => a <= b,
        None => match slice_between(&t, "<dict", "</dict>") {
            Some((a, b)) => a <= b,
            None => true,
        },
    }
}

/// A best-effort property-list body of Apple's answer (see [`spec_plist_body`]).
pub fn normalize_apple_plist_body(body: &str) -> (r: String)
    requires
        plist_body_in_order(body@),
    ensures
        r@ == spec_plist_body(body@),
{
    let trimmed = trim(body);
    let t = chars_of(trimmed.as_str());
    if t.len() == 0 {
        return String::new();
    }
    match slice_between(&t, "<plist", "</plist>") {
        Some((a, b)) => {
            let inner = string_from_chars(crate::bundle::slice_chars(t.as_slice(), a, b).as_slice());
            return trim(inner.as_str());
        },
        None => {},
    }
    match slice_between(&t, "<dict", "</dict>") {
        Some((a, b)) => {
            let inner = string_from_chars(crate::bundle::slice_chars(t.as_slice(), a, b).as_slice());
            return trim(inner.as_str());
        },
        None => {},
    }
    if has_text(trimmed.as_str(), "<key>") {
        let mut buf: Vec<char> = Vec::new();
        push_str(&mut buf, "<dict>");
        push_str(&mut buf, trimmed.as_str());
        push_str(&mut buf, "</dict>");
        return string_from_chars(buf.as_slice());
    }
    trimmed
}

/// The base64 text (standard alphabet, with padding) of the bytes.
pub open spec fn base64_encoded(bytes: Seq<u8>) -> Seq<char> {
    crate::text::spec_base64(bytes, false, true)
}

/// Encodes bytes as base64 text (standard alphabet, with padding).
///
/// Trusted: `base64::engine::general_purpose::STANDARD.encode`, which writes the RFC 4648
/// text that [`crate::text::spec_base64`] states.
#[verifier::external_body]
pub(crate) fn encode_base64(bytes: &[u8]) -> (r: String)
    ensures
        r@ == base64_encoded(bytes@),
{
    base64::engine::general_purpose::STANDARD.encode(bytes)
}

/// The members after `insert(key, value)` on an ordered JSON map.
pub open spec fn json_inserted(m: Seq<(String, JsonNode)>, key: String, value: JsonNode) -> Seq<(String, JsonNode)> {
    let (found, pos) = json_insert_position(m, key@, 0);
    if found {
        m.update(pos, (m[pos].0, value))
    } else {
        m.insert(pos, (key, value))
    }
}

/// The ordered JSON map made by inserting the entries' keys with the given values, in
/// order (a later entry with the same key replaces the value).
pub open spec fn sorted_members(entries: Seq<(String, PlistNode)>, values: Seq<JsonNode>) -> Seq<(String, JsonNode)>
    decreases values.len(),
{
    if values.len() == 0 || values.len() > entries.len() {
        Seq::empty()
    } else {
        json_inserted(sorted_members(entries, values.drop_last()), entries[values.len() - 1].0, values.last())
    }
}

/// Whether `j` is the JSON form of the property-list value `p`: strings, dates and reals
/// as their text, integers in decimal, data in base64, booleans as booleans, arrays item
/// by item, dictionaries as objects in key order, and anything else as null.
pub open spec fn json_form(p: PlistNode, j: JsonNode) -> bool
    decreases p,
{
    match p {
        PlistNode::String(s) => j matches JsonNode::String(t) && t@ == s@,
        PlistNode::Boolean(b) => j matches JsonNode::Bool(c) && c == b,
        PlistNode::Integer(i) => j matches JsonNode::String(t) && t@ == spec_decimal_signed(i as int),
        PlistNode::Real(r) => j matches JsonNode::String(t) && t@ == r@,
        PlistNode::Data(d) => j matches JsonNode::String(t) && t@ == base64_encoded(d@),
        PlistNode::Date(d) => j matches JsonNode::String(t) && t@ == d@,
        PlistNode::Array(items) => j matches JsonNode::Array(out) && out@.len() == items@.len()
            && forall|i: int| 0 <= i < items@.len() ==> json_form(#[trigger] items@[i], out@[i]),
        PlistNode::Dictionary(entries) => j matches JsonNode::Object(m) && exists|values: Seq<JsonNode>|
            #[trigger] sorted_members(entries@, values) == m@ && values.len() == entries@.len()
            && forall|k: int| 0 <= k < entries@.len() ==> json_form(entries@[k].1, #[trigger] values[k]),
        PlistNode::Uid(_) => j is Null,
    }
}

fn decimal_of_integer(i: i128) -> (r: String)
    ensures
        r@ == spec_decimal_signed(i as int),
    decreases 0nat,
{
    let magnitude: u128 = if i < 0 {
        if i == i128::MIN { 170141183460469231731687303715884105728u128 } else { (-i) as u128 }
    } else {
        i as u128
    };
    let digits = decimal_wide(magnitude);
    let mut buf: Vec<char> = Vec::new();
    if i < 0 {
        buf.push('-');
    }
    push_chars(&mut buf, digits.as_slice());
    assert(i < 0 ==> buf@ =~= seq!['-'] + spec_decimal(magnitude as nat));
    string_from_chars(buf.as_slice())
}

fn decimal_wide(n: u128) -> (r: Vec<char>)
    ensures
        r@ == spec_decimal(n as nat),
    decreases n,
{
    if n < 10 {
        decimal(n as u64)
    } else {
        let mut v = decimal_wide(n / 10);
        let d = decimal((n % 10) as u64);
        assert(d@ == seq![crate::text::digit_char((n % 10) as nat)]);
        v.push(d[0]);
        v
    }
}

/// The JSON form of a property-list value (see [`json_form`]).
pub fn plist_value_to_json(val: &PlistNode) -> (j: JsonNode)
    ensures
        json_form(*val, j),
    decreases *val,
{
    match val {
        PlistNode::String(s) => JsonNode::String(s.clone()),
        PlistNode::Boolean(b) => JsonNode::Bool(*b),
        PlistNode::Integer(i) => JsonNode::String(decimal_of_integer(*i)),
        PlistNode::Real(r) => JsonNode::String(r.clone()),
        PlistNode::Data(d) => JsonNode::String(encode_base64(d.as_slice())),
        PlistNode::Date(d) => JsonNode::String(d.clone()),
        PlistNode::Uid(_) => JsonNode::Null,
        PlistNode::Array(items) => {
            let mut out: Vec<JsonNode> = Vec::new();
            let mut i: usize = 0;
            while i < items.len()
                invariant
                    i <= items@.len(),
                    *val == PlistNode::Array(*items),
                    out@.len() == i,
                    forall|k: int| 0 <= k < i ==> json_form(#[trigger] items@[k], out@[k]),
                decreases items@.len() - i,
            {
                proof {
                    broadcast use vstd::std_specs::vec::axiom_vec_index_decreases;
                    assert(decreases_to!(*items => items[i as int]));
                    assert((*val)->Array_0 == *items);
                    assert(decreases_to!(*val => (*val)->Array_0));
                    assert(decreases_to!(*val => items[i as int]));
                }
                let j = plist_value_to_json(&items[i]);
                out.push(j);
                i = i + 1;
            }
            JsonNode::Array(out)
        },
        PlistNode::Dictionary(entries) => {
            let mut m: Vec<(String, JsonNode)> = Vec::new();
            let ghost mut values: Seq<JsonNode> = Seq::empty();
            let mut i: usize = 0;
            while i < entries.len()
                invariant
                    i <= entries@.len(),
                    *val == PlistNode::Dictionary(*entries),
                    values.len() == i,
                    forall|k: int| 0 <= k < i ==> json_form(entries@[k].1, #[trigger] values[k]),
                    m@ == sorted_members(entries@, values),
                decreases entries@.len() - i,
            {
                proof {
                    broadcast use vstd::std_specs::vec::axiom_vec_index_decreases;
                    assert(decreases_to!(*entries => entries[i as int]));
                    assert((*val)->Dictionary_0 == *entries);
                    assert(decreases_to!(*val => (*val)->Dictionary_0));
                    assert(decreases_to!(*val => entries[i as int]));
                    assert(decreases_to!(*val => entries[i as int].1));
                }
                let j = plist_value_to_json(&entries[i].1);
                let ghost jv = j;
                let key = entries[i].0.clone();
                json_members_insert(&mut m, key, j);
                proof {
                    let next = values.push(jv);
                    assert(next.drop_last() =~= values);
                    values = next;
                }
                i = i + 1;
            }
            let ghost witness = values;
            assert(sorted_members(entries@, witness) == m@);
            JsonNode::Object(m)
        },
    }
}

/// How Apple's answer reads as a map: the members of the property list's top-level
/// dictionary in JSON form (none when it is not a dictionary); when the body is not a
/// property list, the members of a JSON object body; else an error naming the parser's
/// complaint and the body's byte length.
pub open spec fn apple_response_of(body: Seq<char>, r: Result<Vec<(String, JsonNode)>, String>) -> bool {
    match plist_decoded(vstd::utf8::encode_utf8(spec_plist_body(body))) {
        Ok(v) => r matches Ok(m) && match v {
            PlistNode::Dictionary(entries) => m@.len() == entries@.len() && forall|k: int| 0 <= k < entries@.len()
                ==> (#[trigger] m@[k]).0@ == entries@[k].0@ && json_form(entries@[k].1, m@[k].1),
            _ => m@.len() == 0,
        },
        Err(e) => {
            let fallback = if seq_starts_with(trim_white(body), "{"@) { json_object_parsed(body) } else { None };
            match fallback {
                Some(members) => r matches Ok(m) && m@ == members,
                None => r matches Err(msg) && msg@ == "Failed to parse Apple response: "@ + e + " (body_len="@
                    + spec_decimal(vstd::utf8::encode_utf8(body).len()) + ")"@,
            }
        },
    }
}

/// Reads Apple's answer as a map (see [`apple_response_of`]).
pub fn parse_apple_plist_response(body: &str) -> (r: Result<Vec<(String, JsonNode)>, String>)
    requires
        plist_body_in_order(body@),
    ensures
        apple_response_of(body@, r),
{
    let normalized = normalize_apple_plist_body(body);
    let bytes = normalized.as_str().as_bytes();
    assert(bytes@ == vstd::utf8::encode_utf8(spec_plist_body(body@)));
    match decode_plist(bytes) {
        Ok(v) => {
            let mut m: Vec<(String, JsonNode)> = Vec::new();
            match &v {
                PlistNode::Dictionary(entries) => {
                    let mut i: usize = 0;
                    while i < entries.len()
                        invariant
                            i <= entries@.len(),
                            m@.len() == i,
                            forall|k: int| 0 <= k < i ==> (#[trigger] m@[k]).0@ == entries@[k].0@
                                && json_form(entries@[k].1, m@[k].1),
                        decreases entries@.len() - i,
                    {
                        let j = plist_value_to_json(&entries[i].1);
                        m.push((entries[i].0.clone(), j));
                        i = i + 1;
                    }
                },
                _ => {},
            }
            Ok(m)
        },
        Err(e) => {
            let t = chars_of(trim(body).as_str());
            proof { reveal_strlit("{"); }
            let opens = t.len() > 0 && t[0] == '{';
            assert(t@ == trim_white(body@));
            assert(opens == seq_starts_with(trim_white(body@), "{"@)) by {
                reveal_strlit("{");
                assert("{"@.len() == 1 && "{"@[0] == '{');
                if t@.len() > 0 {
                    let head = t@.subrange(0, 1);
                    assert(head.len() == 1 && head[0] == t@[0]);
                    if t@[0] == '{' {
                        assert(head =~= "{"@);
                    } else {
                        assert(head[0] != "{"@[0]);
                    }
                }
            }
            if opens {
                match parse_json_object(body) {
                    Some(members) => {
                        return Ok(members);
                    },
                    None => {},
                }
            }
            let body_bytes = body.as_bytes();
            assert(body_bytes@ == vstd::utf8::encode_utf8(body@));
            let mut buf: Vec<char> = Vec::new();
            push_str(&mut buf, "Failed to parse Apple response: ");
            push_str(&mut buf, e.as_str());
            push_str(&mut buf, " (body_len=");
            push_chars(&mut buf, decimal(body_bytes.len() as u64).as_slice());
            push_str(&mut buf, ")");
            Err(string_from_chars(buf.as_slice()))
        },
    }
}

/// The entries after `insert(key, value)` on an insertion-ordered dictionary: the value
/// replaces that of the entry with the key, else the entry is appended.
pub open spec fn appended_or_replaced(entries: Seq<(Seq<char>, PlistNode)>, key: Seq<char>, value: PlistNode) -> Seq<(Seq<char>, PlistNode)> {
    match crate::injection::spec_position_from(Seq::new(entries.len(), |i: int| entries[i].0), key, 0) {
        Some(k) => entries.update(k, (key, value)),
        None => entries.push((key, value)),
    }
}

/// The dictionary of a sign-in body: each field inserted in turn as a string.
pub open spec fn body_entries(fields: Seq<(&str, String)>) -> Seq<(Seq<char>, PlistNode)>
    decreases fields.len(),
{
    if fields.len() == 0 {
        Seq::empty()
    } else {
        appended_or_replaced(body_entries(fields.drop_last()), fields.last().0@, PlistNode::String(fields.last().1))
    }
}

/// Whether `r` is the XML property list of a request body with these string fields (see
/// [`body_entries`]), or the writer's error (`failed to encode plist body: <error>`).
pub open spec fn plist_body_of(fields: Seq<(&str, String)>, r: Result<Vec<u8>, String>) -> bool {
    exists|d: Vec<(String, PlistNode)>| #![trigger plist_xml(PlistNode::Dictionary(d))]
        entries_view(d@) == body_entries(fields) && match plist_xml(PlistNode::Dictionary(d)) {
            Ok(b) => r matches Ok(v) && v@ == b,
            Err(e) => r matches Err(m) && m@ == "failed to encode plist body: "@ + e,
        }
}

/// The XML property list of a request body with these string fields (see
/// [`plist_body_of`]).
pub fn build_xml_plist_body(fields: &[(&str, String)]) -> (r: Result<Vec<u8>, String>)
    ensures
        plist_body_of(fields@, r),
{
    let mut d: Vec<(String, PlistNode)> = Vec::new();
    let mut i: usize = 0;
    while i < fields.len()
        invariant
            i <= fields@.len(),
            entries_view(d@) == body_entries(fields@.subrange(0, i as int)),
        decreases fields@.len() - i,
    {
        assert(fields@.subrange(0, i + 1).drop_last() =~= fields@.subrange(0, i as int));
        let key = fields[i].0.to_owned();
        let value = PlistNode::String(fields[i].1.clone());
        let ghost ev = entries_view(d@);
        let ghost keys = Seq::new(ev.len(), |k: int| ev[k].0);
        let mut k: usize = 0;
        while k < d.len() && !(d[k].0 == key)
            invariant
                k <= d@.len(),
                ev == entries_view(d@),
                keys == Seq::new(ev.len(), |x: int| ev[x].0),
                crate::injection::spec_position_from(keys, key@, 0) == crate::injection::spec_position_from(keys, key@, k as int),
            decreases d@.len() - k,
        {
            k = k + 1;
        }
        if k < d.len() {
            d.set(k, (key, value));
            assert(entries_view(d@) =~= appended_or_replaced(ev, fields@[i as int].0@, PlistNode::String(fields@[i as int].1)));
        } else {
            d.push((key, value));
            assert(entries_view(d@) =~= appended_or_replaced(ev, fields@[i as int].0@, PlistNode::String(fields@[i as int].1)));
        }
        i = i + 1;
    }
    assert(fields@.subrange(0, fields@.len() as int) =~= fields@);
    let node = PlistNode::Dictionary(d);
    let ghost dv = d;
    match encode_plist_xml(&node) {
        Ok(b) => Ok(b),
        Err(e) => {
            let mut buf: Vec<char> = Vec::new();
            push_str(&mut buf, "failed to encode plist body: ");
            push_str(&mut buf, e.as_str());
            Err(string_from_chars(buf.as_slice()))
        },
    }
}

} // verus!
