//! The links the download service hands out: its base address, the download and install
//! links of stored records and running jobs, and archive paths.
use vstd::prelude::*;
use vstd::string::StringSliceAdditionalSpecFns;
use vstd::utf8::encode_utf8;
use base64::Engine;
use crate::bundle::slice_chars;
use crate::delivery::{derive_delivery_decision, is_placeholder_bundle_id, spec_delivery, spec_is_placeholder_bundle_id};
use crate::inspection::IpaInspection;
use crate::naming::{last_char_position, last_position, trim_suffix_all};
use crate::ota::{spec_url_encode, url_encode};
use crate::records::DownloadRecord;
use crate::text::{chars_of, decimal_signed, ends_with, push_chars, push_str, seq_ends_with, spec_decimal_signed, string_from_chars, trim_end_all, trim_end_char, trim, trim_white};

verus! {

/// The URL-safe base64 text (no padding) of the bytes.
pub open spec fn base64_url_encoded(bytes: Seq<u8>) -> Seq<char> {
    crate::text::spec_base64(bytes, true, false)
}

/// Encodes bytes as URL-safe base64 without padding.
///
/// Trusted: `base64::engine::general_purpose::URL_SAFE_NO_PAD.encode`, which writes the
/// RFC 4648 text that [`crate::text::spec_base64`] states.
#[verifier::external_body]
fn encode_base64_url(bytes: &[u8]) -> (r: String)
    ensures
        r@ == base64_url_encoded(bytes@),
{
    base64::engine::general_purpose::URL_SAFE_NO_PAD.encode(bytes)
}

/// The bytes that a URL-safe base64 text without padding stands for; nothing where the
/// text is not one.
pub uninterp spec fn base64_url_decoded(text: Seq<char>) -> Option<Seq<u8>>;

/// Decodes URL-safe base64 without padding.
///
/// Trusted: `base64::engine::general_purpose::URL_SAFE_NO_PAD.decode`, whose outcome
/// depends on the text alone.  The engine refuses padding and stray trailing bits, so it
/// accepts exactly the texts its `encode` writes and gives back the bytes they were written
/// from; the last three clauses state this.
#[verifier::external_body]
pub(crate) fn decode_base64_url(text: &str) -> (r: Option<Vec<u8>>)
    ensures
        match base64_url_decoded(text@) {
            Some(b) => r matches Some(v) && v@ == b,
            None => r is None,
        },
        r is None ==> forall|b: Seq<u8>| #[trigger] base64_url_encoded(b) != text@,
        r matches Some(v) ==> forall|b: Seq<u8>| #[trigger] base64_url_encoded(b) == text@ ==> v@ == b,
        r matches Some(v) ==> base64_url_encoded(v@) == text@,
{
    base64::engine::general_purpose::URL_SAFE_NO_PAD.decode(text).ok()
}

/// The base address of the service: the configured public address, trimmed and without
/// trailing `/`, when one is set and not blank; else `<scheme>://<host>` of the request.
pub open spec fn spec_base_url(public_base_url: Option<Seq<char>>, scheme: Seq<char>, host: Seq<char>) -> Seq<char> {
    let fallback = scheme + "://"@ + host;
    match public_base_url {
        Some(v) => {
            let t = trim_end_char(trim_white(v), '/');
            if t.len() > 0 { t } else { fallback }
        },
        None => fallback,
    }
}

/// The base address of the service (see [`spec_base_url`]); the configured address comes
/// from the environment and the scheme and host from the request.
pub fn build_base_url(public_base_url: Option<&str>, scheme: &str, host: &str) -> (r: String)
    ensures
        r@ == spec_base_url(
            match public_base_url {
                Some(v) => Some(v@),
                None => None,
            },
            scheme@,
            host@,
        ),
{
    match public_base_url {
        Some(v) => {
            let t = trim(v);
            let cs = chars_of(t.as_str());
            let stripped = trim_end_all(cs.as_slice(), '/');
            if stripped.len() > 0 {
                return string_from_chars(stripped.as_slice());
            }
        },
        None => {},
    }
    let mut buf: Vec<char> = Vec::new();
    push_str(&mut buf, scheme);
    push_str(&mut buf, "://");
    push_str(&mut buf, host);
    string_from_chars(buf.as_slice())
}

/// The download link of a stored record.
pub open spec fn spec_record_download_url(base_url: Seq<char>, record_id: int) -> Seq<char> {
    base_url + "/api/public/download-records/"@ + spec_decimal_signed(record_id) + "/file"@
}

/// The download link of a stored record (see [`spec_record_download_url`]).
pub fn build_record_download_url(base_url: &str, record_id: i64) -> (r: String)
    ensures
        r@ == spec_record_download_url(base_url@, record_id as int),
{
    let mut buf: Vec<char> = Vec::new();
    push_str(&mut buf, base_url);
    push_str(&mut buf, "/api/public/download-records/");
    let digits = decimal_signed(record_id);
    push_chars(&mut buf, digits.as_slice());
    push_str(&mut buf, "/file");
    string_from_chars(buf.as_slice())
}

/// The prefix of an install link; the manifest's address follows, URL-encoded.
pub open spec fn itms_prefix() -> Seq<char> {
    "itms-services://?action=download-manifest&url="@
}

/// The install link that opens a manifest address.
pub open spec fn spec_install_link(manifest_url: Seq<char>) -> Seq<char> {
    itms_prefix() + spec_url_encode(encode_utf8(manifest_url))
}

fn install_link(manifest_url: &str) -> (r: String)
    ensures
        r@ == spec_install_link(manifest_url@),
{
    let mut buf: Vec<char> = Vec::new();
    push_str(&mut buf, "itms-services://?action=download-manifest&url=");
    let encoded = url_encode(manifest_url);
    push_str(&mut buf, encoded.as_str());
    string_from_chars(buf.as_slice())
}

/// The manifest address of a running job.
pub open spec fn spec_job_manifest_url(base_url: Seq<char>, job_id: Seq<char>) -> Seq<char> {
    base_url + "/api/public/manifest?jobId="@ + spec_url_encode(encode_utf8(job_id))
}

/// The manifest address of a running job (see [`spec_job_manifest_url`]).
pub fn build_job_manifest_url(base_url: &str, job_id: &str) -> (r: String)
    ensures
        r@ == spec_job_manifest_url(base_url@, job_id@),
{
    let mut buf: Vec<char> = Vec::new();
    push_str(&mut buf, base_url);
    push_str(&mut buf, "/api/public/manifest?jobId=");
    let encoded = url_encode(job_id);
    push_str(&mut buf, encoded.as_str());
    string_from_chars(buf.as_slice())
}

/// The install link of a running job (see [`spec_install_link`]).
pub fn build_job_install_url(base_url: &str, job_id: &str) -> (r: String)
    ensures
        r@ == spec_install_link(spec_job_manifest_url(base_url@, job_id@)),
{
    let manifest = build_job_manifest_url(base_url, job_id);
    install_link(manifest.as_str())
}

/// The text an install token encodes: the URL-encoded download link, `title@bundle` and
/// version, joined by `/`.
pub open spec fn spec_install_token_text(link: Seq<char>, title: Seq<char>, bundle_id: Seq<char>, version: Seq<char>) -> Seq<char> {
    spec_url_encode(encode_utf8(link)) + "/"@ + spec_url_encode(encode_utf8(title + "@"@ + bundle_id)) + "/"@
        + spec_url_encode(encode_utf8(version))
}

/// The install link of a stored record: the manifest address `<base>/i/<token>.plist`,
/// where the token is the URL-safe base64 of [`spec_install_token_text`] for its download
/// link.
pub open spec fn spec_record_install_link(base_url: Seq<char>, record_id: int, title: Seq<char>, bundle_id: Seq<char>, version: Seq<char>) -> Seq<char> {
    let raw = spec_install_token_text(spec_record_download_url(base_url, record_id), title, bundle_id, version);
    let token = base64_url_encoded(encode_utf8(raw));
    spec_install_link(base_url + "/i/"@ + token + ".plist"@)
}

fn record_install_link(base_url: &str, record_id: i64, title: &str, bundle_id: &str, version: &str) -> (r: String)
    ensures
        r@ == spec_record_install_link(base_url@, record_id as int, title@, bundle_id@, version@),
{
    let download = build_record_download_url(base_url, record_id);
    let mut name: Vec<char> = Vec::new();
    push_str(&mut name, title);
    push_str(&mut name, "@");
    push_str(&mut name, bundle_id);
    let name_full = string_from_chars(name.as_slice());
    let mut raw: Vec<char> = Vec::new();
    push_str(&mut raw, url_encode(download.as_str()).as_str());
    push_str(&mut raw, "/");
    push_str(&mut raw, url_encode(name_full.as_str()).as_str());
    push_str(&mut raw, "/");
    push_str(&mut raw, url_encode(version).as_str());
    let raw_text = string_from_chars(raw.as_slice());
    let token = encode_base64_url(raw_text.as_str().as_bytes());
    let mut manifest: Vec<char> = Vec::new();
    push_str(&mut manifest, base_url);
    push_str(&mut manifest, "/i/");
    push_str(&mut manifest, token.as_str());
    push_str(&mut manifest, ".plist");
    let manifest_url = string_from_chars(manifest.as_slice());
    install_link(manifest_url.as_str())
}

pub(crate) fn trim_suffix(s: &[char], suffix: &[char]) -> (r: Vec<char>)
    ensures
        r@ == trim_suffix_all(s@, suffix@),
{
    let mut end: usize = s.len();
    let mut cur = slice_chars(s, 0, end);
    assert(s@.subrange(0, end as int) =~= s@);
    while suffix.len() > 0 && ends_with(cur.as_slice(), suffix)
        invariant
            end <= s@.len(),
            cur@ == s@.subrange(0, end as int),
            trim_suffix_all(s@, suffix@) == trim_suffix_all(cur@, suffix@),
        decreases end,
    {
        end = end - suffix.len();
        let next = slice_chars(s, 0, end);
        assert(cur@.subrange(0, cur@.len() - suffix@.len()) =~= next@);
        cur = next;
    }
    cur
}

/// The last segment of a path (after its last `/`).
pub open spec fn last_segment(path: Seq<char>) -> Seq<char> {
    match last_position(path, '/') {
        Some(p) => path.subrange(p + 1, path.len() as int),
        None => path,
    }
}

/// The title shown for a record: its app name, else the name of its file without `.ipa`.
pub open spec fn spec_record_title(record: DownloadRecord) -> Option<Seq<char>> {
    if record.app_name@.len() > 0 {
        Some(record.app_name@)
    } else {
        match record.file_path {
            Some(p) => Some(trim_suffix_all(last_segment(p@), ".ipa"@)),
            None => None,
        }
    }
}

/// A bundle id that is not a placeholder.
pub open spec fn real_bundle_id(value: Option<Seq<char>>) -> Option<Seq<char>> {
    match value {
        Some(b) => if spec_is_placeholder_bundle_id(b) { None } else { Some(b) },
        None => None,
    }
}

/// The install link of a stored record: none unless its delivery is installable over the
/// air (see [`spec_delivery`]), it has a real bundle id (its own, else the one read from
/// its IPA), a non-empty version and a title (see [`spec_record_title`]).
pub open spec fn spec_record_install_url(
    base_url: Seq<char>,
    record: DownloadRecord,
    record_id: int,
    inspection: Option<IpaInspection>,
    file_exists: bool,
    bundle_id_in_ipa: Option<Seq<char>>,
) -> Option<Seq<char>> {
    let bundle = match real_bundle_id(crate::text::opt_text(record.bundle_id)) {
        Some(b) => Some(b),
        None => real_bundle_id(bundle_id_in_ipa),
    };
    if !spec_delivery(inspection, file_exists).1 {
        None
    } else {
        match (bundle, crate::text::opt_text(record.version), spec_record_title(record)) {
            (Some(b), Some(v), Some(t)) => if v.len() > 0 {
                Some(spec_record_install_link(base_url, record_id, t, b, v))
            } else {
                None
            },
            _ => None,
        }
    }
}

fn real_bundle(value: &Option<String>) -> (r: Option<String>)
    ensures
        crate::text::opt_text(r) == real_bundle_id(crate::text::opt_text(*value)),
{
    match value {
        Some(b) => if is_placeholder_bundle_id(b.as_str()) { None } else { Some(b.clone()) },
        None => None,
    }
}

fn record_title(record: &DownloadRecord) -> (r: Option<String>)
    ensures
        crate::text::opt_text(r) == spec_record_title(*record),
{
    let name = chars_of(record.app_name.as_str());
    if name.len() > 0 {
        return Some(record.app_name.clone());
    }
    match &record.file_path {
        Some(p) => {
            let cs = chars_of(p.as_str());
            let n = cs.len();
            let segment = match last_char_position(cs.as_slice(), '/') {
                Some(k) => slice_chars(cs.as_slice(), k + 1, cs.len()),
                None => slice_chars(cs.as_slice(), 0, cs.len()),
            };
            assert(cs@.subrange(0, cs@.len() as int) =~= cs@);
            let suffix = chars_of(".ipa");
            let t = trim_suffix(segment.as_slice(), suffix.as_slice());
            Some(string_from_chars(t.as_slice()))
        },
        None => None,
    }
}

/// The install link of a stored record (see [`spec_record_install_url`]).  The caller
/// gives the record's inspection, whether its file exists and the bundle id read from the
/// file (none when it cannot be read).
pub fn build_record_install_url(
    base_url: &str,
    record: &DownloadRecord,
    record_id: i64,
    inspection: Option<&IpaInspection>,
    file_exists: bool,
    bundle_id_in_ipa: Option<String>,
) -> (r: Option<String>)
    ensures
        crate::text::opt_text(r) == spec_record_install_url(
            base_url@,
            *record,
            record_id as int,
            match inspection {
                Some(i) => Some(*i),
                None => None,
            },
            file_exists,
            crate::text::opt_text(bundle_id_in_ipa),
        ),
{
    let decision = derive_delivery_decision(inspection, file_exists);
    if !decision.ota_installable {
        return None;
    }
    let bundle_id = match real_bundle(&record.bundle_id) {
        Some(b) => b,
        None => match real_bundle(&bundle_id_in_ipa) {
            Some(b) => b,
            None => return None,
        },
    };
    let version = match &record.version {
        Some(v) => v,
        None => return None,
    };
    let title = match record_title(record) {
        Some(t) => t,
        None => return None,
    };
    if chars_of(version.as_str()).len() == 0 {
        return None;
    }
    Some(record_install_link(base_url, record_id, title.as_str(), bundle_id.as_str(), version.as_str()))
}

/// The GitHub contents path of a file: each `/`-separated segment URL-encoded.
pub open spec fn spec_contents_path(file_path: Seq<char>) -> Seq<char>
    decreases file_path.len(),
{
    match last_position(file_path, '/') {
        Some(p) => if 0 <= p < file_path.len() {
            spec_contents_path(file_path.subrange(0, p)) + "/"@ + spec_url_encode(encode_utf8(file_path.subrange(p + 1, file_path.len() as int)))
        } else {
            spec_url_encode(encode_utf8(file_path))
        },
        None => spec_url_encode(encode_utf8(file_path)),
    }
}

fn contents_path(file_path: &[char]) -> (r: Vec<char>)
    ensures
        r@ == spec_contents_path(file_path@),
    decreases file_path@.len(),
{
    let n = file_path.len();
    match last_char_position(file_path, '/') {
        Some(p) => {
            let head = slice_chars(file_path, 0, p);
            let tail = slice_chars(file_path, p + 1, file_path.len());
            let mut out = contents_path(head.as_slice());
            push_str(&mut out, "/");
            let encoded = url_encode(string_from_chars(tail.as_slice()).as_str());
            push_str(&mut out, encoded.as_str());
            out
        },
        None => {
            let encoded = url_encode(string_from_chars(file_path).as_str());
            chars_of(encoded.as_str())
        },
    }
}

/// The GitHub contents path of a file (see [`spec_contents_path`]).
pub fn github_contents_api_path(file_path: &str) -> (r: String)
    ensures
        r@ == spec_contents_path(file_path@),
{
    let cs = chars_of(file_path);
    let out = contents_path(cs.as_slice());
    string_from_chars(out.as_slice())
}

/// The base address of the community archive: the configured one when set and not
/// blank, else the public repository's, without trailing `/`.
pub open spec fn spec_archive_base_url(configured: Option<Seq<char>>) -> Seq<char> {
    let chosen = match configured {
        Some(v) => if trim_white(v).len() > 0 { v } else { "https://raw.githubusercontent.com/ruanrrn/ipa-archive/main"@ },
        None => "https://raw.githubusercontent.com/ruanrrn/ipa-archive/main"@,
    };
    trim_end_char(chosen, '/')
}

/// The base address of the community archive (see [`spec_archive_base_url`]); the
/// configured address comes from the environment.
pub fn community_archive_base_url(configured: Option<&str>) -> (r: String)
    ensures
        r@ == spec_archive_base_url(match configured {
            Some(v) => Some(v@),
            None => None,
        }),
{
    let chosen = match configured {
        Some(v) => if chars_of(trim(v).as_str()).len() > 0 {
            chars_of(v)
        } else {
            chars_of("https://raw.githubusercontent.com/ruanrrn/ipa-archive/main")
        },
        None => chars_of("https://raw.githubusercontent.com/ruanrrn/ipa-archive/main"),
    };
    let t = trim_end_all(chosen.as_slice(), '/');
    string_from_chars(t.as_slice())
}

} // verus!
