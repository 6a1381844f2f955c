//! How a downloaded IPA can be delivered, and small readers of download links and ids.
use vstd::prelude::*;
use crate::inspection::IpaInspection;
use crate::models::DeliveryDecision;
use crate::text::{chars_of, find_run, run_position_from, string_from_chars, trim, trim_white};
use crate::bundle::{char_position_from, find_char, slice_chars};

verus! {

/// `c` with ASCII upper-case letters made lower-case.
pub open spec fn ascii_lower(c: char) -> char {
    if 'A' <= c <= 'Z' { ((c as u32) + 32) as char } else { c }
}

/// Whether a bundle id is a placeholder: blank, or `unknown.bundle` in any ASCII case.
pub open spec fn spec_is_placeholder_bundle_id(value: Seq<char>) -> bool {
    let t = trim_white(value);
    let target = "unknown.bundle"@;
    t.len() == 0 || (t.len() == target.len() && forall|i: int| 0 <= i < t.len() ==> ascii_lower(#[trigger] t[i]) == target[i])
}

pub(crate) fn lower_ascii(c: char) -> (r: char)
    ensures
        r == ascii_lower(c),
{
    if 'A' <= c && c <= 'Z' {
        let letters = chars_of("abcdefghijklmnopqrstuvwxyz");
        proof {
            reveal_strlit("abcdefghijklmnopqrstuvwxyz");
        }
        let k = (c as u32) - 65;
        let r = letters[k as usize];
        assert(r == ((c as u32) + 32) as char);
        r
    } else {
        c
    }
}

/// Whether a bundle id is a placeholder (see [`spec_is_placeholder_bundle_id`]).
pub fn is_placeholder_bundle_id(value: &str) -> (r: bool)
    ensures
        r == spec_is_placeholder_bundle_id(value@),
{
    let t = chars_of(trim(value).as_str());
    if t.len() == 0 {
        return true;
    }
    let target = chars_of("unknown.bundle");
    if t.len() != target.len() {
        return false;
    }
    let mut i: usize = 0;
    while i < t.len()
        invariant
            i <= t@.len(),
            t@ == trim_white(value@),
            t@.len() == target@.len(),
            target@ == "unknown.bundle"@,
            forall|k: int| 0 <= k < i ==> ascii_lower(#[trigger] t@[k]) == target@[k],
        decreases t@.len() - i,
    {
        if lower_ascii(t[i]) != target[i] {
            return false;
        }
        i = i + 1;
    }
    true
}

/// Whether an inspection blocks a direct install.
pub fn inspection_blocks_install(inspection: &IpaInspection) -> (r: bool)
    ensures
        r == !inspection.direct_install_ok,
{
    !inspection.direct_install_ok
}

/// The delivery of an IPA from its inspection and whether its file exists:
/// * installable and provisioned: `ota_sideloadable`, over the air;
/// * installable with its `.sinf` files: `appstore_sinf_package`, over the air;
/// * declared `.sinf` files missing: `appstore_incomplete_sinf`;
/// * encrypted binaries: `fairplay_encrypted`;
/// * otherwise inspected: `broken_or_unknown`;
/// * not inspected: `unknown` (file present) or `missing_file`;
/// the last four are not installable over the air and are offered for download when the
/// file exists (for review otherwise; not at all when uninspected and missing).
pub open spec fn spec_delivery(inspection: Option<IpaInspection>, file_exists: bool) -> (Seq<char>, bool, Seq<char>) {
    let fallback_method = if file_exists { "download_only"@ } else { "manual_review"@ };
    match inspection {
        Some(i) => if i.direct_install_ok && i.has_embedded_mobileprovision {
            ("ota_sideloadable"@, true, "ota"@)
        } else if i.direct_install_ok && i.has_sc_info_manifest {
            ("appstore_sinf_package"@, true, "ota"@)
        } else if i.has_sc_info_manifest && i.missing_sinf_paths@.len() > 0 {
            ("appstore_incomplete_sinf"@, false, fallback_method)
        } else if i.encrypted_binaries@.len() > 0 {
            ("fairplay_encrypted"@, false, fallback_method)
        } else {
            ("broken_or_unknown"@, false, fallback_method)
        },
        None => (
            if file_exists { "unknown"@ } else { "missing_file"@ },
            false,
            if file_exists { "manual_review"@ } else { "none"@ },
        ),
    }
}

fn decision(kind: &str, ota: bool, method: &str) -> (d: DeliveryDecision)
    ensures
        d.package_kind@ == kind@,
        d.ota_installable == ota,
        d.install_method@ == method@,
{
    DeliveryDecision { package_kind: kind.to_owned(), ota_installable: ota, install_method: method.to_owned() }
}

/// The delivery of an IPA (see [`spec_delivery`]).
pub fn derive_delivery_decision(inspection: Option<&IpaInspection>, file_exists: bool) -> (d: DeliveryDecision)
    ensures
        (d.package_kind@, d.ota_installable, d.install_method@) == spec_delivery(
            match inspection {
                Some(i) => Some(*i),
                None => None,
            },
            file_exists,
        ),
{
    let fallback_method = if file_exists { "download_only" } else { "manual_review" };
    match inspection {
        Some(i) => {
            if i.direct_install_ok && i.has_embedded_mobileprovision {
                decision("ota_sideloadable", true, "ota")
            } else if i.direct_install_ok && i.has_sc_info_manifest {
                decision("appstore_sinf_package", true, "ota")
            } else if i.has_sc_info_manifest && i.missing_sinf_paths.len() > 0 {
                decision("appstore_incomplete_sinf", false, fallback_method)
            } else if i.encrypted_binaries.len() > 0 {
                decision("fairplay_encrypted", false, fallback_method)
            } else {
                decision("broken_or_unknown", false, fallback_method)
            }
        },
        None => decision(
            if file_exists { "unknown" } else { "missing_file" },
            false,
            if file_exists { "manual_review" } else { "none" },
        ),
    }
}

/// The value of a run of ASCII digits.
pub open spec fn digits_value(s: Seq<char>) -> int
    decreases s.len(),
{
    if s.len() == 0 {
        0
    } else {
        digits_value(s.drop_last()) * 10 + ((s.last() as u32) - 48)
    }
}

/// Whether every character is an ASCII digit.
pub open spec fn is_digit_run(s: Seq<char>) -> bool {
    forall|i: int| 0 <= i < s.len() ==> '0' <= #[trigger] s[i] <= '9'
}

/// What `str::parse::<i64>` reads: an optional `+` or `-` and at least one ASCII digit,
/// when the value fits an `i64`.
pub open spec fn spec_parse_i64(s: Seq<char>) -> Option<int> {
    let negative = s.len() > 0 && s[0] == '-';
    let signed = s.len() > 0 && (s[0] == '-' || s[0] == '+');
    let body = if signed { s.subrange(1, s.len() as int) } else { s };
    if body.len() == 0 || !is_digit_run(body) {
        None
    } else {
        let v = if negative { -digits_value(body) } else { digits_value(body) };
        if i64::MIN <= v <= i64::MAX { Some(v) } else { None }
    }
}

proof fn lemma_digits_value_grows(s: Seq<char>, i: int)
    requires
        is_digit_run(s),
        0 <= i <= s.len(),
    ensures
        digits_value(s.subrange(0, i)) <= digits_value(s),
        0 <= digits_value(s.subrange(0, i)),
    decreases s.len(),
{
    if i < s.len() {
        assert(s.drop_last().subrange(0, i) =~= s.subrange(0, i));
        lemma_digits_value_grows(s.drop_last(), i);
        assert(is_digit_run(s.drop_last()));
        lemma_digits_value_grows(s.drop_last(), s.len() - 1);
        assert(s.drop_last().subrange(0, s.len() - 1) =~= s.drop_last());
    } else {
        assert(s.subrange(0, i) =~= s);
        if s.len() > 0 {
            assert(is_digit_run(s.drop_last()));
            lemma_digits_value_grows(s.drop_last(), s.len() - 1);
            assert(s.drop_last().subrange(0, s.len() - 1) =~= s.drop_last());
        }
    }
}

/// Reads a signed 64-bit integer (see [`spec_parse_i64`]).
pub fn parse_i64(s: &[char]) -> (r: Option<i64>)
    ensures
        match spec_parse_i64(s@) {
            Some(v) => r matches Some(x) && x as int == v,
            None => r is None,
        },
{
    let negative = s.len() > 0 && s[0] == '-';
    let signed = s.len() > 0 && (s[0] == '-' || s[0] == '+');
    let start: usize = if signed { 1 } else { 0 };
    let ghost body = if signed { s@.subrange(1, s@.len() as int) } else { s@ };
    if start >= s.len() {
        return None;
    }
    let mut value: i128 = 0;
    let mut i = start;
    while i < s.len()
        invariant
            start <= i <= s@.len(),
            start < s@.len(),
            negative == (s@.len() > 0 && s@[0] == '-'),
            signed == (s@.len() > 0 && (s@[0] == '-' || s@[0] == '+')),
            start == (if signed { 1usize } else { 0usize }),
            body == s@.subrange(start as int, s@.len() as int),
            is_digit_run(s@.subrange(start as int, i as int)),
            value == digits_value(s@.subrange(start as int, i as int)),
            0 <= value <= 9223372036854775808,
        decreases s@.len() - i,
    {
        let c = s[i];
        if !('0' <= c && c <= '9') {
            assert(body[i - start] == c);
            assert(!is_digit_run(body));
            return None;
        }
        let d = (c as u32) - 48;
        assert(s@.subrange(start as int, i + 1).drop_last() =~= s@.subrange(start as int, i as int));
        let next = value * 10 + d as i128;
        if next > 9223372036854775808 {
            proof {
                let rest = s@.subrange(start as int, i + 1);
                assert(rest.last() == c);
                assert(digits_value(rest) == next);
                assert(is_digit_run(rest));
                if is_digit_run(body) {
                    assert(body.subrange(0, i + 1 - start) =~= rest);
                    lemma_digits_value_grows(body, i + 1 - start);
                    assert(digits_value(body) > 9223372036854775808);
                }
                let sb = if s@.len() > 0 && (s@[0] == '-' || s@[0] == '+') {
                    s@.subrange(1, s@.len() as int)
                } else {
                    s@
                };
                assert(sb =~= body);
                assert(spec_parse_i64(s@) is None);
            }
            return None;
        }
        value = next;
        i = i + 1;
    }
    assert(body =~= s@.subrange(start as int, i as int));
    if negative {
        Some((-value) as i64)
    } else if value <= 9223372036854775807 {
        Some(value as i64)
    } else {
        None
    }
}

/// The record id in a download link: the text after the first
/// `/api/public/download-records/` up to the next `/` (or a later occurrence of the
/// marker), read as an `i64`.
pub open spec fn spec_record_id(url: Seq<char>) -> Option<int> {
    let marker = "/api/public/download-records/"@;
    match run_position_from(url, marker, 0) {
        Some(p) => {
            let rest = url.subrange(p + marker.len(), url.len() as int);
            let segment_end = match run_position_from(rest, marker, 0) {
                Some(q) => q,
                None => rest.len() as int,
            };
            let segment = rest.subrange(0, segment_end);
            let id = match char_position_from(segment, '/', 0) {
                Some(k) => segment.subrange(0, k),
                None => segment,
            };
            spec_parse_i64(id)
        },
        None => None,
    }
}

/// The record id in a download link (see [`spec_record_id`]).
pub fn extract_record_id_from_download_url(download_url: &str) -> (r: Option<i64>)
    ensures
        match spec_record_id(download_url@) {
            Some(v) => r matches Some(x) && x as int == v,
            None => r is None,
        },
{
    let url = chars_of(download_url);
    let marker = chars_of("/api/public/download-records/");
    let p = match find_run(url.as_slice(), marker.as_slice()) {
        Some(p) => p,
        None => return None,
    };
    let n = url.len();
    assert(p + marker@.len() <= n);
    let rest = slice_chars(url.as_slice(), p + marker.len(), n);
    let segment_end = match find_run(rest.as_slice(), marker.as_slice()) {
        Some(q) => q,
        None => rest.len(),
    };
    let segment = slice_chars(rest.as_slice(), 0, segment_end);
    let id = match find_char(segment.as_slice(), '/', 0) {
        Some(k) => slice_chars(segment.as_slice(), 0, k),
        None => slice_chars(segment.as_slice(), 0, segment.len()),
    };
    assert(segment@.subrange(0, segment@.len() as int) =~= segment@);
    parse_i64(id.as_slice())
}

} // verus!
