//! The service's API envelope, request and response shapes, and the normalisation of
//! user input they carry.
use vstd::prelude::*;
use vstd::string::StringSliceAdditionalSpecFns;
use crate::inspection::IpaInspection;
use crate::records::AdminUser;
use crate::text::{chars_of, opt_text, string_from_chars, trim, trim_white};

verus! {

/// The name of the administrator session cookie.
pub const ADMIN_SESSION_COOKIE: &'static str = "ipa_admin_session";
/// How many days an administrator session lasts.
pub const SESSION_TTL_DAYS: i64 = 30;
/// How many minutes a pending two-factor sign-in lasts.
pub const PENDING_MFA_TTL_MINUTES: i64 = 10;

/// The envelope of every API answer.
#[derive(Debug, Clone)]
pub struct ApiResponse<T> {
    pub ok: bool,
    pub data: Option<T>,
    pub error: Option<String>,
}

impl<T> ApiResponse<T> {
    /// A successful answer carrying `data`.
    pub fn success(data: T) -> (r: Self)
        ensures
            r.ok,
            r.data == Some(data),
            r.error is None,
    {
        ApiResponse { ok: true, data: Some(data), error: None }
    }

    /// A failed answer carrying the error message.
    pub fn error(error: String) -> (r: Self)
        ensures
            !r.ok,
            r.data is None,
            r.error == Some(error),
    {
        ApiResponse { ok: false, data: None, error: Some(error) }
    }
}

#[derive(Debug, Clone)]
pub struct VersionQuery {
    pub appid: String,
    pub region: Option<String>,
}

#[derive(Debug, Clone)]
#[allow(non_snake_case)]
pub struct DownloadUrlQuery {
    pub token: String,
    pub appid: String,
    pub appVerId: Option<String>,
    pub autoPurchase: bool,
}

#[derive(Debug, Clone)]
#[allow(non_snake_case)]
pub struct PurchaseStatusQuery {
    pub token: String,
    pub appid: String,
    pub appVerId: Option<String>,
}

#[derive(Debug, Clone)]
#[allow(non_snake_case)]
pub struct ClaimRequest {
    pub token: String,
    pub appid: String,
    pub appVerId: Option<String>,
}

#[derive(Debug, Clone)]
pub struct PurchaseStatusBatchRequest {
    pub token: String,
    pub appids: Vec<String>,
}

#[derive(Debug, Clone)]
pub struct ConfirmPurchaseRequest {
    pub token: String,
    pub appid: String,
}

#[derive(Debug, Clone)]
#[allow(non_snake_case)]
pub struct DownloadRequest {
    pub token: String,
    pub url: String,
    pub appid: Option<String>,
    pub appVerId: Option<String>,
    pub downloadPath: Option<String>,
    pub autoPurchase: bool,
}

#[derive(Debug, Clone)]
#[allow(non_snake_case)]
pub struct StartDownloadDirectRequest {
    pub token: String,
    pub appid: String,
    pub appVerId: Option<String>,
    pub appName: Option<String>,
    pub bundleId: Option<String>,
    pub appVersion: Option<String>,
    pub artworkUrl: Option<String>,
    pub artistName: Option<String>,
    pub autoPurchase: bool,
}

#[derive(Debug, Clone)]
pub struct AppMetaQuery {
    pub appid: String,
    pub region: Option<String>,
}

#[derive(Debug, Clone)]
#[allow(non_snake_case)]
pub struct JobIdQuery {
    pub jobId: String,
}

#[derive(Debug, Clone)]
pub struct AppleLoginRequest {
    pub email: String,
    pub password: String,
    pub mfa: Option<String>,
    pub save_credentials: Option<bool>,
}

#[derive(Debug, Clone)]
pub struct AdminLoginRequest {
    pub username: String,
    pub password: String,
}

#[derive(Debug, Clone)]
pub struct ChangePasswordRequest {
    pub current_password: String,
    pub new_password: String,
    pub new_username: Option<String>,
}

/// The administrator as the API shows it.
#[derive(Debug, Clone)]
pub struct AuthUserPayload {
    pub username: String,
    pub is_default: bool,
}

impl AuthUserPayload {
    /// The API view of an administrator: name and whether it is the default one.
    pub fn from(user: &AdminUser) -> (r: Self)
        ensures
            r.username@ == user.username@,
            r.is_default == user.is_default,
    {
        AuthUserPayload { username: user.username.clone(), is_default: user.is_default }
    }
}

#[derive(Debug, Clone)]
#[allow(non_snake_case)]
pub struct ManifestQuery {
    pub url: Option<String>,
    pub bundle_id: Option<String>,
    pub bundle_version: Option<String>,
    pub title: Option<String>,
    pub jobId: Option<String>,
}

/// A download record as the API shows it.
pub struct DownloadRecordView {
    pub id: Option<i64>,
    pub job_id: Option<String>,
    pub app_name: String,
    pub app_id: String,
    pub bundle_id: Option<String>,
    pub version: Option<String>,
    pub account_email: String,
    pub account_region: Option<String>,
    pub download_date: Option<String>,
    pub status: String,
    pub file_size: Option<i64>,
    pub file_path: Option<String>,
    pub download_url: Option<String>,
    pub install_url: Option<String>,
    pub artwork_url: Option<String>,
    pub artist_name: Option<String>,
    pub progress: Option<i64>,
    pub error: Option<String>,
    pub package_kind: String,
    pub ota_installable: bool,
    pub install_method: String,
    pub created_at: Option<String>,
    pub file_exists: bool,
    pub inspection: Option<IpaInspection>,
}

/// An IPA file on the server as the API shows it.
pub struct IpaArtifactView {
    pub id: String,
    pub file_name: String,
    pub file_size: u64,
    pub file_path: String,
    pub modified_at: Option<String>,
    pub app_name: String,
    pub app_id: String,
    pub bundle_id: Option<String>,
    pub version: Option<String>,
    pub account_email: Option<String>,
    pub account_region: Option<String>,
    pub artwork_url: Option<String>,
    pub artist_name: Option<String>,
    pub record_id: Option<i64>,
    pub download_url: String,
    pub install_url: Option<String>,
    pub package_kind: String,
    pub ota_installable: bool,
    pub install_method: String,
    pub inspection: Option<IpaInspection>,
}

/// The answer when a requested download already exists.
pub struct ExistingDownloadResponse {
    pub job_id: String,
    pub record_id: Option<i64>,
    pub app_id: String,
    pub version: String,
    pub app_name: String,
    pub account_email: String,
    pub file_path: String,
    pub file_size: Option<i64>,
    pub download_url: String,
    pub install_url: Option<String>,
    pub package_kind: String,
    pub ota_installable: bool,
    pub install_method: String,
    pub artwork_url: Option<String>,
    pub artist_name: Option<String>,
    pub bundle_id: Option<String>,
    pub reused: bool,
    pub task_dir: String,
}

/// Declares `std::time::Instant` so that records can hold one.
#[verifier::external_type_specification]
#[verifier::external_body]
pub struct ExInstant(std::time::Instant);

/// A cached purchase check.
#[derive(Debug)]
pub struct PurchaseCacheEntry {
    pub purchased: bool,
    pub needs_purchase: bool,
    pub cached_at: std::time::Instant,
}

/// How a downloaded IPA can be delivered.
#[derive(Debug, Clone)]
pub struct DeliveryDecision {
    pub package_kind: String,
    pub ota_installable: bool,
    pub install_method: String,
}

/// The text without any `c`.
pub open spec fn without_char(s: Seq<char>, c: char) -> Seq<char>
    decreases s.len(),
{
    if s.len() == 0 {
        s
    } else if s.last() == c {
        without_char(s.drop_last(), c)
    } else {
        without_char(s.drop_last(), c).push(s.last())
    }
}

/// The text without any `c`.
pub fn remove_char(s: &str, c: char) -> (r: String)
    ensures
        r@ == without_char(s@, c),
{
    let cs = chars_of(s);
    let mut out: Vec<char> = Vec::new();
    let mut i: usize = 0;
    while i < cs.len()
        invariant
            i <= cs@.len(),
            cs@ == s@,
            out@ == without_char(cs@.subrange(0, i as int), c),
        decreases cs@.len() - i,
    {
        assert(cs@.subrange(0, i + 1).drop_last() =~= cs@.subrange(0, i as int));
        if cs[i] != c {
            out.push(cs[i]);
        }
        i = i + 1;
    }
    assert(cs@.subrange(0, cs@.len() as int) =~= cs@);
    string_from_chars(out.as_slice())
}

/// A two-factor code as typed: without surrounding white space and without spaces;
/// none when nothing is left.
pub open spec fn spec_mfa_code(mfa: Option<Seq<char>>) -> Option<Seq<char>> {
    match mfa {
        Some(code) => {
            let c = without_char(trim_white(code), ' ');
            if c.len() == 0 { None } else { Some(c) }
        },
        None => None,
    }
}

/// The two-factor code of a sign-in (see [`spec_mfa_code`]).
pub fn normalize_mfa_code(mfa: Option<&str>) -> (r: Option<String>)
    ensures
        opt_text(r) == spec_mfa_code(match mfa {
            Some(s) => Some(s@),
            None => None,
        }),
{
    match mfa {
        Some(code) => {
            let trimmed = trim(code);
            let cleaned = remove_char(trimmed.as_str(), ' ');
            if cleaned.as_str().is_empty() { None } else { Some(cleaned) }
        },
        None => None,
    }
}

/// What `str::to_uppercase` makes of a text (the full Unicode upper-case mapping).
pub uninterp spec fn upper_text(s: Seq<char>) -> Seq<char>;

/// `c` with ASCII lower-case letters made upper-case.
pub open spec fn ascii_upper(c: char) -> char {
    if 'a' <= c <= 'z' { ((c as u32) - 32) as char } else { c }
}

/// The text in upper case.
///
/// Trusted: `str::to_uppercase`, whose result depends on the text alone.  On ASCII text
/// the Unicode mapping raises `a`-`z` one for one and keeps every other character, which
/// the second clause states; other texts are left to the name.
#[verifier::external_body]
pub fn to_upper(s: &str) -> (r: String)
    ensures
        r@ == upper_text(s@),
        crate::apple::ascii_text(s@) ==> r@ == Seq::new(s@.len(), |i: int| ascii_upper(s@[i])),
{
    s.to_uppercase()
}

/// A region code: the text trimmed and upper-cased, when that takes two or three bytes.
pub open spec fn spec_region_code(region: Seq<char>) -> Option<Seq<char>> {
    let n = upper_text(trim_white(region));
    let len = vstd::utf8::encode_utf8(n).len();
    if 2 <= len <= 3 { Some(n) } else { None }
}

/// Normalises a region code (see [`spec_region_code`]).
pub fn normalize_region_code(region: &str) -> (r: Option<String>)
    ensures
        opt_text(r) == spec_region_code(region@),
{
    let trimmed = trim(region);
    let normalized = to_upper(trimmed.as_str());
    let text = normalized.as_str();
    let len = text.as_bytes().len();
    assert(text.spec_bytes() == vstd::utf8::encode_utf8(normalized@));
    if len >= 2 && len <= 3 { Some(normalized) } else { None }
}

} // verus!
