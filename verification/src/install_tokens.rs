//! Install tokens: the last segment of a manifest address `/i/<token>.plist`, which
//! carries the download link, the app's name and bundle id and its version, and the
//! manifest requests that a job or a query makes.
use vstd::prelude::*;
use vstd::string::StringSliceAdditionalSpecFns;
use vstd::utf8::{decode_utf8, encode_utf8, has_width_1_encoding, valid_utf8};
use crate::bundle::{char_position_from, find_char, slice_chars};
use crate::delivery::{is_placeholder_bundle_id, spec_is_placeholder_bundle_id};
use crate::links::{base64_url_decoded, decode_base64_url};
use crate::naming::{last_char_position, last_position};
use crate::delivery::{derive_delivery_decision, spec_delivery};
use crate::download_jobs::{job_file_url, spec_job_file_url};
use crate::inspection::IpaInspection;
use crate::links::spec_install_token_text;
use crate::models::ManifestQuery;
use crate::records::DownloadMetadata;
use crate::ota::{is_unreserved, spec_url_encode, string_from_utf8};
use crate::text::{digit_char, hex_upper_char};
use crate::text::{chars_of, ends_with, opt_text, push_chars, push_str, seq_ends_with, string_from_chars};

verus! {

/// The value of a hexadecimal digit byte (`0-9`, `A-F`, `a-f`).
pub open spec fn hex_value(c: u8) -> Option<u8> {
    if 0x30 <= c <= 0x39 {
        Some((c - 0x30) as u8)
    } else if 0x41 <= c <= 0x46 {
        Some((c - 0x41 + 10) as u8)
    } else if 0x61 <= c <= 0x66 {
        Some((c - 0x61 + 10) as u8)
    } else {
        None
    }
}

/// Whether `%` followed by two hexadecimal digits starts the bytes.
pub open spec fn starts_with_escape(b: Seq<u8>) -> bool {
    b.len() >= 3 && b[0] == 0x25 && hex_value(b[1]) is Some && hex_value(b[2]) is Some
}

/// Percent-decoding of bytes: each `%` followed by two hexadecimal digits becomes the byte
/// they spell; every other byte, a lone `%` among them, stays as it is.
pub open spec fn percent_decode_bytes(b: Seq<u8>) -> Seq<u8>
    decreases b.len(),
{
    if b.len() == 0 {
        Seq::empty()
    } else if starts_with_escape(b) {
        seq![(hex_value(b[1]).unwrap() * 16 + hex_value(b[2]).unwrap()) as u8] + percent_decode_bytes(b.subrange(3, b.len() as int))
    } else {
        seq![b[0]] + percent_decode_bytes(b.subrange(1, b.len() as int))
    }
}

/// The percent-decoding of a text: its UTF-8 bytes decoded (see [`percent_decode_bytes`])
/// and read back as UTF-8; nothing where they are not valid UTF-8.
pub open spec fn spec_percent_decode(s: Seq<char>) -> Option<Seq<char>> {
    let b = percent_decode_bytes(encode_utf8(s));
    if valid_utf8(b) {
        Some(decode_utf8(b))
    } else {
        None
    }
}

fn hex_digit_value(c: u8) -> (r: Option<u8>)
    ensures
        r == hex_value(c),
{
    if 0x30 <= c && c <= 0x39 {
        Some(c - 0x30)
    } else if 0x41 <= c && c <= 0x46 {
        Some(c - 0x41 + 10)
    } else if 0x61 <= c && c <= 0x66 {
        Some(c - 0x61 + 10)
    } else {
        None
    }
}

/// Percent-decodes a text (see [`spec_percent_decode`]); `+` stays as it is.
pub fn percent_decode(s: &str) -> (r: Option<String>)
    ensures
        match spec_percent_decode(s@) {
            Some(t) => r matches Some(v) && v@ == t,
            None => r is None,
        },
{
    let b = s.as_bytes();
    let ghost whole = b@;
    let n = b.len();
    let mut out: Vec<u8> = Vec::new();
    let mut i: usize = 0;
    assert(whole.subrange(0, n as int) =~= whole);
    while i < n
        invariant
            n == b@.len(),
            whole == b@,
            i <= n,
            out@ + percent_decode_bytes(whole.subrange(i as int, n as int)) == percent_decode_bytes(whole),
        decreases n - i,
    {
        let ghost rest = whole.subrange(i as int, n as int);
        let c = b[i];
        let mut escaped = false;
        if c == 0x25 && n - i >= 3 {
            let hi = hex_digit_value(b[i + 1]);
            let lo = hex_digit_value(b[i + 2]);
            match (hi, lo) {
                (Some(h), Some(l)) => {
                    assert(starts_with_escape(rest));
                    assert(rest.subrange(3, rest.len() as int) =~= whole.subrange(i + 3, n as int));
                    out.push(h * 16 + l);
                    assert(out@ + percent_decode_bytes(whole.subrange(i + 3, n as int)) =~= percent_decode_bytes(whole));
                    i = i + 3;
                    escaped = true;
                },
                _ => {},
            }
        }
        if !escaped {
            assert(!starts_with_escape(rest));
            assert(rest.subrange(1, rest.len() as int) =~= whole.subrange(i + 1, n as int));
            out.push(c);
            assert(out@ + percent_decode_bytes(whole.subrange(i + 1, n as int)) =~= percent_decode_bytes(whole));
            i = i + 1;
        }
    }
    assert(whole.subrange(n as int, n as int) =~= Seq::<u8>::empty());
    assert(out@ =~= percent_decode_bytes(whole));
    match string_from_utf8(out) {
        Ok(t) => Some(t),
        Err(_) => None,
    }
}

/// Why an install token was refused.
#[derive(Debug, Clone, Copy, PartialEq, Eq, Structural)]
pub enum TokenProblem {
    /// The token is not URL-safe base64.
    Undecodable,
    /// The decoded bytes are not UTF-8.
    NotUtf8,
    /// The decoded text has no `/`.
    Malformed,
    /// The download link does not percent-decode.
    BadLink,
    /// The name does not percent-decode.
    BadName,
    /// The version does not percent-decode.
    BadVersion,
}

/// The text the service answers a refused token with.
pub open spec fn token_problem_text(p: TokenProblem) -> Seq<char> {
    match p {
        TokenProblem::Undecodable => "invalid plist token"@,
        TokenProblem::NotUtf8 => "invalid plist token encoding"@,
        TokenProblem::Malformed => "malformed plist token"@,
        TokenProblem::BadLink => "invalid url in plist token"@,
        TokenProblem::BadName => "invalid name in plist token"@,
        TokenProblem::BadVersion => "invalid version in plist token"@,
    }
}

impl TokenProblem {
    /// The text the service answers this refusal with (see [`token_problem_text`]).
    pub fn message(&self) -> (r: String)
        ensures
            r@ == token_problem_text(*self),
    {
        match self {
            TokenProblem::Undecodable => "invalid plist token".to_owned(),
            TokenProblem::NotUtf8 => "invalid plist token encoding".to_owned(),
            TokenProblem::Malformed => "malformed plist token".to_owned(),
            TokenProblem::BadLink => "invalid url in plist token".to_owned(),
            TokenProblem::BadName => "invalid name in plist token".to_owned(),
            TokenProblem::BadVersion => "invalid version in plist token".to_owned(),
        }
    }
}

/// A token read as far as its download link: the decoded link, and the name and version
/// still percent-encoded.
#[derive(Debug, Clone)]
pub struct TokenParts {
    pub link: String,
    pub name: String,
    pub version: Option<String>,
}

/// The token without one trailing `.plist`.
pub open spec fn strip_plist_suffix(raw: Seq<char>) -> Seq<char> {
    if seq_ends_with(raw, ".plist"@) {
        raw.subrange(0, raw.len() - 6)
    } else {
        raw
    }
}

/// The pieces of a text cut at its first two `/` (the third piece, when there is one,
/// keeps any later `/`); nothing when the text has no `/`.
pub open spec fn split_token_text(s: Seq<char>) -> Option<(Seq<char>, Seq<char>, Option<Seq<char>>)> {
    match char_position_from(s, '/', 0) {
        None => None,
        Some(i) => match char_position_from(s, '/', i + 1) {
            None => Some((s.subrange(0, i), s.subrange(i + 1, s.len() as int), None)),
            Some(j) => Some((s.subrange(0, i), s.subrange(i + 1, j), Some(s.subrange(j + 1, s.len() as int)))),
        },
    }
}

/// What the decoded bytes of a token hold: as UTF-8 text cut at its first two `/`, the
/// percent-decoded download link, the encoded name and the encoded version.
pub open spec fn spec_token_bytes(b: Seq<u8>) -> Result<(Seq<char>, Seq<char>, Option<Seq<char>>), TokenProblem> {
    if !valid_utf8(b) {
        Err(TokenProblem::NotUtf8)
    } else {
        match split_token_text(decode_utf8(b)) {
            None => Err(TokenProblem::Malformed),
            Some((l, n, v)) => match spec_percent_decode(l) {
                None => Err(TokenProblem::BadLink),
                Some(link) => Ok((link, n, v)),
            },
        }
    }
}

/// What a token (with or without its `.plist`) holds: its URL-safe base64 decoded and read
/// as [`spec_token_bytes`] says.
pub open spec fn spec_read_token(raw: Seq<char>) -> Result<(Seq<char>, Seq<char>, Option<Seq<char>>), TokenProblem> {
    match base64_url_decoded(strip_plist_suffix(raw)) {
        None => Err(TokenProblem::Undecodable),
        Some(b) => spec_token_bytes(b),
    }
}

/// Whether the parts are what [`spec_read_token`] gives, or the refusal is its refusal.
pub open spec fn token_read_as(r: Result<TokenParts, TokenProblem>, s: Result<(Seq<char>, Seq<char>, Option<Seq<char>>), TokenProblem>) -> bool {
    match s {
        Ok((l, n, v)) => r matches Ok(p) && p.link@ == l && p.name@ == n && opt_text(p.version) == v,
        Err(e) => r matches Err(f) && f == e,
    }
}

fn read_token_text(text: String) -> (r: Result<TokenParts, TokenProblem>)
    ensures
        match split_token_text(text@) {
            None => r matches Err(f) && f == TokenProblem::Malformed,
            Some((l, n, v)) => match spec_percent_decode(l) {
                None => r matches Err(f) && f == TokenProblem::BadLink,
                Some(link) => r matches Ok(p) && p.link@ == link && p.name@ == n && opt_text(p.version) == v,
            },
        },
{
    let cs = chars_of(text.as_str());
    let first = match find_char(cs.as_slice(), '/', 0) {
        Some(i) => i,
        None => return Err(TokenProblem::Malformed),
    };
    let link_text = string_from_chars(slice_chars(cs.as_slice(), 0, first).as_slice());
    let (name, version) = match find_char(cs.as_slice(), '/', first + 1) {
        None => (string_from_chars(slice_chars(cs.as_slice(), first + 1, cs.len()).as_slice()), None),
        Some(j) => (
            string_from_chars(slice_chars(cs.as_slice(), first + 1, j).as_slice()),
            Some(string_from_chars(slice_chars(cs.as_slice(), j + 1, cs.len()).as_slice())),
        ),
    };
    match percent_decode(link_text.as_str()) {
        Some(link) => Ok(TokenParts { link, name, version }),
        None => Err(TokenProblem::BadLink),
    }
}

/// Reads an install token as far as its download link (see [`spec_read_token`]); a
/// trailing `.plist` is dropped first.
pub fn read_install_token(raw: &str) -> (r: Result<TokenParts, TokenProblem>)
    ensures
        token_read_as(r, spec_read_token(raw@)),
{
    let cs = chars_of(raw);
    let suffix = chars_of(".plist");
    proof {
        reveal_strlit(".plist");
    }
    let token = if ends_with(cs.as_slice(), suffix.as_slice()) {
        string_from_chars(slice_chars(cs.as_slice(), 0, cs.len() - suffix.len()).as_slice())
    } else {
        raw.to_owned()
    };
    let bytes = match decode_base64_url(token.as_str()) {
        Some(b) => b,
        None => return Err(TokenProblem::Undecodable),
    };
    let text = match string_from_utf8(bytes) {
        Ok(t) => t,
        Err(_) => return Err(TokenProblem::NotUtf8),
    };
    read_token_text(text)
}

/// The four fields of an OTA manifest: the IPA's address, bundle id, version and title.
#[derive(Debug, Clone)]
pub struct ManifestFields {
    pub url: String,
    pub bundle_id: String,
    pub bundle_version: String,
    pub title: String,
}

/// The title and bundle id that a decoded name stands for: the parts before and after its
/// last `@`; without `@`, the whole name and `org.ipatool.<name>`.
pub open spec fn name_and_identifier(full: Seq<char>) -> (Seq<char>, Seq<char>) {
    match last_position(full, '@') {
        Some(k) => (full.subrange(0, k), full.subrange(k + 1, full.len() as int)),
        None => (full, "org.ipatool."@ + full),
    }
}

/// The bundle id a manifest announces: the one the token names, unless that is a
/// placeholder and the IPA behind the link names a real one.
pub open spec fn chosen_bundle_id(named: Seq<char>, in_ipa: Option<Seq<char>>) -> Seq<char> {
    match in_ipa {
        Some(x) => if spec_is_placeholder_bundle_id(named) && !spec_is_placeholder_bundle_id(x) {
            x
        } else {
            named
        },
        None => named,
    }
}

/// The manifest fields of a token read as far as its link: the link; the bundle id (see
/// [`name_and_identifier`] and [`chosen_bundle_id`]); the decoded version, `1.0` when the
/// token has none; and the title.
pub open spec fn spec_token_fields(
    link: Seq<char>,
    name: Seq<char>,
    version: Option<Seq<char>>,
    in_ipa: Option<Seq<char>>,
) -> Result<(Seq<char>, Seq<char>, Seq<char>, Seq<char>), TokenProblem> {
    match spec_percent_decode(name) {
        None => Err(TokenProblem::BadName),
        Some(full) => {
            let title = name_and_identifier(full).0;
            let bundle = chosen_bundle_id(name_and_identifier(full).1, in_ipa);
            match version {
                None => Ok((link, bundle, "1.0"@, title)),
                Some(e) => match spec_percent_decode(e) {
                    None => Err(TokenProblem::BadVersion),
                    Some(v) => Ok((link, bundle, v, title)),
                },
            }
        },
    }
}

/// Whether the fields are the given ones, or the refusal is the given one.
pub open spec fn fields_read_as(
    r: Result<ManifestFields, TokenProblem>,
    s: Result<(Seq<char>, Seq<char>, Seq<char>, Seq<char>), TokenProblem>,
) -> bool {
    match s {
        Ok((u, b, v, t)) => r matches Ok(f) && f.url@ == u && f.bundle_id@ == b && f.bundle_version@ == v && f.title@ == t,
        Err(e) => r matches Err(f) && f == e,
    }
}

/// The manifest fields of a token read as far as its link (see [`spec_token_fields`]);
/// `bundle_id_in_ipa` is the bundle id the IPA behind the link declares, where it can be read.
pub fn install_token_fields(parts: &TokenParts, bundle_id_in_ipa: Option<&str>) -> (r: Result<ManifestFields, TokenProblem>)
    ensures
        fields_read_as(
            r,
            spec_token_fields(
                parts.link@,
                parts.name@,
                opt_text(parts.version),
                match bundle_id_in_ipa {
                    Some(x) => Some(x@),
                    None => None,
                },
            ),
        ),
{
    let full = match percent_decode(parts.name.as_str()) {
        Some(f) => f,
        None => return Err(TokenProblem::BadName),
    };
    let cs = chars_of(full.as_str());
    let (title, named) = match last_char_position(cs.as_slice(), '@') {
        Some(k) => (
            string_from_chars(slice_chars(cs.as_slice(), 0, k).as_slice()),
            string_from_chars(slice_chars(cs.as_slice(), k + 1, cs.len()).as_slice()),
        ),
        None => {
            let mut buf: Vec<char> = Vec::new();
            push_str(&mut buf, "org.ipatool.");
            push_chars(&mut buf, cs.as_slice());
            (string_from_chars(cs.as_slice()), string_from_chars(buf.as_slice()))
        },
    };
    let bundle_id = match bundle_id_in_ipa {
        Some(x) => if is_placeholder_bundle_id(named.as_str()) && !is_placeholder_bundle_id(x) {
            x.to_owned()
        } else {
            named
        },
        None => named,
    };
    let bundle_version = match &parts.version {
        None => "1.0".to_owned(),
        Some(e) => match percent_decode(e.as_str()) {
            Some(v) => v,
            None => return Err(TokenProblem::BadVersion),
        },
    };
    Ok(ManifestFields { url: parts.link.clone(), bundle_id, bundle_version, title })
}

/// What the decoded bytes of a token give as manifest fields: [`spec_token_bytes`], then
/// [`spec_token_fields`].
pub open spec fn spec_token_bytes_fields(b: Seq<u8>, in_ipa: Option<Seq<char>>) -> Result<(Seq<char>, Seq<char>, Seq<char>, Seq<char>), TokenProblem> {
    match spec_token_bytes(b) {
        Err(e) => Err(e),
        Ok((l, n, v)) => spec_token_fields(l, n, v, in_ipa),
    }
}

/// Manifest fields read without a refusal.
pub open spec fn fields_ok(url: Seq<char>, bundle_id: Seq<char>, version: Seq<char>, title: Seq<char>) -> Result<(Seq<char>, Seq<char>, Seq<char>, Seq<char>), TokenProblem> {
    Ok((url, bundle_id, version, title))
}

/// The bytes of a text whose characters are all ASCII.
spec fn ascii_bytes(s: Seq<char>) -> Seq<u8> {
    Seq::new(s.len(), |i: int| (s[i] as u32) as u8)
}

/// A character that URL encoding may write: ASCII, and not `/`.
spec fn url_safe(c: char) -> bool {
    (c as u32) < 128 && c != '/'
}

proof fn lemma_encode_ascii(s: Seq<char>)
    requires
        forall|i: int| 0 <= i < s.len() ==> (#[trigger] s[i] as u32) < 128,
    ensures
        encode_utf8(s) == ascii_bytes(s),
    decreases s.len(),
{
    if s.len() > 0 {
        let v = s[0] as u32;
        assert(v & 0x7F == v) by (bit_vector)
            requires
                v < 128,
        ;
        assert(has_width_1_encoding(v));
        let rest = s.drop_first();
        assert forall|i: int| 0 <= i < rest.len() implies (#[trigger] rest[i] as u32) < 128 by {
            assert(rest[i] == s[i + 1]);
        }
        lemma_encode_ascii(rest);
        assert(ascii_bytes(s) =~= seq![(v & 0x7F) as u8] + ascii_bytes(rest));
    }
}

proof fn lemma_hex_upper(d: nat)
    requires
        d < 16,
    ensures
        url_safe(hex_upper_char(d)),
        hex_value((hex_upper_char(d) as u32) as u8) == Some(d as u8),
{
    assert(d == 0 || d == 1 || d == 2 || d == 3 || d == 4 || d == 5 || d == 6 || d == 7 || d == 8 || d == 9 || d == 10
        || d == 11 || d == 12 || d == 13 || d == 14 || d == 15);
}

proof fn lemma_url_encode_safe(b: Seq<u8>)
    ensures
        forall|i: int| 0 <= i < spec_url_encode(b).len() ==> url_safe(#[trigger] spec_url_encode(b)[i]),
    decreases b.len(),
{
    if b.len() > 0 {
        let c = b.last();
        lemma_url_encode_safe(b.drop_last());
        lemma_hex_upper((c / 16) as nat);
        lemma_hex_upper((c % 16) as nat);
        let head = spec_url_encode(b.drop_last());
        let chunk = if is_unreserved(c) {
            seq![c as char]
        } else {
            seq!['%', hex_upper_char((c / 16) as nat), hex_upper_char((c % 16) as nat)]
        };
        assert(spec_url_encode(b) == head + chunk);
        assert forall|i: int| 0 <= i < spec_url_encode(b).len() implies url_safe(#[trigger] spec_url_encode(b)[i]) by {
            if i < head.len() {
                assert(spec_url_encode(b)[i] == head[i]);
            } else {
                assert(spec_url_encode(b)[i] == chunk[i - head.len()]);
            }
        }
    }
}

proof fn lemma_percent_decode_url_encode(x: Seq<u8>, y: Seq<u8>)
    ensures
        percent_decode_bytes(ascii_bytes(spec_url_encode(x)) + y) == x + percent_decode_bytes(y),
    decreases x.len(),
{
    if x.len() == 0 {
        assert(ascii_bytes(spec_url_encode(x)) + y =~= y);
        assert(x + percent_decode_bytes(y) =~= percent_decode_bytes(y));
    } else {
        let c = x.last();
        let front = x.drop_last();
        let head = spec_url_encode(front);
        let chunk = if is_unreserved(c) {
            seq![c as char]
        } else {
            seq!['%', hex_upper_char((c / 16) as nat), hex_upper_char((c % 16) as nat)]
        };
        let cb = ascii_bytes(chunk);
        assert(ascii_bytes(spec_url_encode(x)) + y =~= ascii_bytes(head) + (cb + y));
        lemma_percent_decode_url_encode(front, cb + y);
        let rest = cb + y;
        if is_unreserved(c) {
            assert(cb =~= seq![c]);
            assert(!starts_with_escape(rest));
            assert(rest.subrange(1, rest.len() as int) =~= y);
            assert(percent_decode_bytes(rest) == seq![c] + percent_decode_bytes(y));
        } else {
            lemma_hex_upper((c / 16) as nat);
            lemma_hex_upper((c % 16) as nat);
            assert(cb =~= seq![0x25u8, (hex_upper_char((c / 16) as nat) as u32) as u8, (hex_upper_char((c % 16) as nat) as u32) as u8]);
            assert(starts_with_escape(rest));
            assert(rest.subrange(3, rest.len() as int) =~= y);
            assert(((c / 16) as u8 * 16 + (c % 16) as u8) as u8 == c);
            assert(percent_decode_bytes(rest) == seq![c] + percent_decode_bytes(y));
        }
        assert(front + (seq![c] + percent_decode_bytes(y)) =~= x + percent_decode_bytes(y));
    }
}

/// Percent-decoding undoes URL encoding: the URL encoding of a text's UTF-8 bytes decodes
/// back to the text.
pub proof fn lemma_url_encode_decodes(t: Seq<char>)
    ensures
        spec_percent_decode(spec_url_encode(encode_utf8(t))) == Some(t),
{
    let e = spec_url_encode(encode_utf8(t));
    lemma_url_encode_safe(encode_utf8(t));
    assert forall|i: int| 0 <= i < e.len() implies (#[trigger] e[i] as u32) < 128 by {
        assert(url_safe(e[i]));
    }
    lemma_encode_ascii(e);
    lemma_percent_decode_url_encode(encode_utf8(t), Seq::empty());
    assert(ascii_bytes(e) + Seq::<u8>::empty() =~= ascii_bytes(e));
    assert(encode_utf8(t) + percent_decode_bytes(Seq::<u8>::empty()) =~= encode_utf8(t));
    vstd::utf8::encode_utf8_valid_utf8(t);
    vstd::utf8::encode_utf8_decode_utf8(t);
}

pub(crate) proof fn lemma_position_at(s: Seq<char>, c: char, i: int, k: int)
    requires
        0 <= i <= k < s.len(),
        s[k] == c,
        forall|m: int| i <= m < k ==> s[m] != c,
    ensures
        char_position_from(s, c, i) == Some(k),
    decreases k - i,
{
    if i < k {
        lemma_position_at(s, c, i + 1, k);
    }
}

proof fn lemma_last_position_at(s: Seq<char>, c: char, k: int, end: int)
    requires
        0 <= k < end <= s.len(),
        s[k] == c,
        forall|m: int| k < m < end ==> s[m] != c,
    ensures
        crate::naming::last_position_before(s, c, end) == Some(k),
    decreases end - k,
{
    if end - 1 > k {
        lemma_last_position_at(s, c, k, end - 1);
    }
}

/// The text an install token is written from reads back: its decoded bytes give the
/// download link, the bundle id, the version and the title it was written from, when the
/// bundle id holds no `@` (the title may). The token itself is the URL-safe base64 of those
/// bytes, which [`decode_base64_url`] gives back.
pub proof fn lemma_install_token_reads_back(link: Seq<char>, title: Seq<char>, bundle_id: Seq<char>, version: Seq<char>)
    requires
        !bundle_id.contains('@'),
    ensures
        spec_token_bytes_fields(encode_utf8(spec_install_token_text(link, title, bundle_id, version)), None) == fields_ok(link, bundle_id, version, title),
{
    let name = title + "@"@ + bundle_id;
    let e1 = spec_url_encode(encode_utf8(link));
    let e2 = spec_url_encode(encode_utf8(name));
    let e3 = spec_url_encode(encode_utf8(version));
    let t = spec_install_token_text(link, title, bundle_id, version);
    assert(t == e1 + "/"@ + e2 + "/"@ + e3);
    vstd::utf8::encode_utf8_valid_utf8(t);
    vstd::utf8::encode_utf8_decode_utf8(t);
    lemma_url_encode_safe(encode_utf8(link));
    lemma_url_encode_safe(encode_utf8(name));
    reveal_strlit("/");
    reveal_strlit("@");
    let n1: int = e1.len() as int;
    let j: int = n1 + 1 + e2.len();
    assert(t[n1] == '/');
    assert(t[j] == '/');
    assert forall|m: int| 0 <= m < n1 implies t[m] != '/' by {
        assert(t[m] == e1[m]);
        assert(url_safe(e1[m]));
    }
    assert forall|m: int| n1 + 1 <= m < j implies t[m] != '/' by {
        assert(t[m] == e2[m - n1 - 1]);
        assert(url_safe(e2[m - n1 - 1]));
    }
    lemma_position_at(t, '/', 0, n1);
    lemma_position_at(t, '/', n1 + 1, j);
    assert(t.subrange(0, n1) =~= e1);
    assert(t.subrange(n1 + 1, j) =~= e2);
    assert(t.subrange(j + 1, t.len() as int) =~= e3);
    lemma_url_encode_decodes(link);
    lemma_url_encode_decodes(name);
    lemma_url_encode_decodes(version);
    let k = title.len() as int;
    assert(name[k] == '@');
    assert forall|m: int| k < m < name.len() implies name[m] != '@' by {
        assert(name[m] == bundle_id[m - k - 1]);
    }
    lemma_last_position_at(name, '@', k, name.len() as int);
    assert(name.subrange(0, k) =~= title);
    assert(name.subrange(k + 1, name.len() as int) =~= bundle_id);
}

/// A refused manifest request: the HTTP status and the message of the answer.
#[derive(Debug, Clone)]
pub struct ManifestRefusal {
    pub status: u16,
    pub message: String,
}

/// The answer to a manifest request: its four fields, or a status and message.
pub type ManifestAnswer = Result<(Seq<char>, Seq<char>, Seq<char>, Seq<char>), (u16, Seq<char>)>;

/// Whether the outcome is the answer.
pub open spec fn answered_as(r: Result<ManifestFields, ManifestRefusal>, a: ManifestAnswer) -> bool {
    match a {
        Ok((u, b, v, t)) => r matches Ok(f) && f.url@ == u && f.bundle_id@ == b && f.bundle_version@ == v && f.title@ == t,
        Err((code, m)) => r matches Err(f) && f.status == code && f.message@ == m,
    }
}

/// The manifest of a job: refused (400) unless the job is `ready`; refused (403) unless its
/// file can be installed over the air, with the inspection's summary (or a fixed reason);
/// refused (500) without metadata; else the job's download link and its metadata's bundle
/// id, short version and display name.
pub open spec fn spec_job_manifest(
    job_id: Seq<char>,
    status: Seq<char>,
    inspection: Option<IpaInspection>,
    file_exists: bool,
    metadata: Option<DownloadMetadata>,
    base_url: Seq<char>,
) -> ManifestAnswer {
    if status != "ready"@ {
        Err((400u16, "任务尚未完成，无法生成 manifest"@))
    } else if !spec_delivery(inspection, file_exists).1 {
        Err((
            403u16,
            "已拦截 manifest 生成："@ + match inspection {
                Some(i) => i.summary@,
                None => "该 IPA 不支持 OTA 安装"@,
            },
        ))
    } else {
        match metadata {
            None => Err((500u16, "任务缺少元数据"@)),
            Some(m) => Ok((spec_job_file_url(base_url, job_id), m.bundle_id@, m.bundle_short_version_string@, m.bundle_display_name@)),
        }
    }
}

fn refusal(status: u16, message: &str) -> (r: Result<ManifestFields, ManifestRefusal>)
    ensures
        r matches Err(f) && f.status == status && f.message@ == message@,
{
    Err(ManifestRefusal { status, message: message.to_owned() })
}

/// The manifest fields of a job (see [`spec_job_manifest`]); `inspection` is that of its
/// file, where the file exists.
pub fn job_manifest_fields(
    job_id: &str,
    status: &str,
    inspection: Option<&IpaInspection>,
    file_exists: bool,
    metadata: Option<&DownloadMetadata>,
    base_url: &str,
) -> (r: Result<ManifestFields, ManifestRefusal>)
    ensures
        answered_as(
            r,
            spec_job_manifest(
                job_id@,
                status@,
                match inspection {
                    Some(i) => Some(*i),
                    None => None,
                },
                file_exists,
                match metadata {
                    Some(m) => Some(*m),
                    None => None,
                },
                base_url@,
            ),
        ),
{
    if !crate::apple::same_text(status, "ready") {
        return refusal(400, "任务尚未完成，无法生成 manifest");
    }
    let decision = derive_delivery_decision(inspection, file_exists);
    if !decision.ota_installable {
        let mut buf: Vec<char> = Vec::new();
        push_str(&mut buf, "已拦截 manifest 生成：");
        match inspection {
            Some(i) => push_str(&mut buf, i.summary.as_str()),
            None => push_str(&mut buf, "该 IPA 不支持 OTA 安装"),
        }
        return Err(ManifestRefusal { status: 403, message: string_from_chars(buf.as_slice()) });
    }
    match metadata {
        None => refusal(500, "任务缺少元数据"),
        Some(m) => Ok(ManifestFields {
            url: job_file_url(base_url, job_id),
            bundle_id: m.bundle_id.clone(),
            bundle_version: m.bundle_short_version_string.clone(),
            title: m.bundle_display_name.clone(),
        }),
    }
}

/// The manifest of a query without a job: refused (400) for the first of `url`,
/// `bundle_id`, `bundle_version` and `title` that is missing; else those four.
pub open spec fn spec_query_manifest(
    url: Option<Seq<char>>,
    bundle_id: Option<Seq<char>>,
    bundle_version: Option<Seq<char>>,
    title: Option<Seq<char>>,
) -> ManifestAnswer {
    match (url, bundle_id, bundle_version, title) {
        (None, _, _, _) => Err((400u16, "url 不能为空"@)),
        (Some(_), None, _, _) => Err((400u16, "bundle_id 不能为空"@)),
        (Some(_), Some(_), None, _) => Err((400u16, "bundle_version 不能为空"@)),
        (Some(_), Some(_), Some(_), None) => Err((400u16, "title 不能为空"@)),
        (Some(u), Some(b), Some(v), Some(t)) => Ok((u, b, v, t)),
    }
}

/// The manifest fields a query names (see [`spec_query_manifest`]); its job id is not read.
pub fn query_manifest_fields(query: &ManifestQuery) -> (r: Result<ManifestFields, ManifestRefusal>)
    ensures
        answered_as(r, spec_query_manifest(opt_text(query.url), opt_text(query.bundle_id), opt_text(query.bundle_version), opt_text(query.title))),
{
    let url = match &query.url {
        Some(u) => u.clone(),
        None => return refusal(400, "url 不能为空"),
    };
    let bundle_id = match &query.bundle_id {
        Some(b) => b.clone(),
        None => return refusal(400, "bundle_id 不能为空"),
    };
    let bundle_version = match &query.bundle_version {
        Some(v) => v.clone(),
        None => return refusal(400, "bundle_version 不能为空"),
    };
    let title = match &query.title {
        Some(t) => t.clone(),
        None => return refusal(400, "title 不能为空"),
    };
    Ok(ManifestFields { url, bundle_id, bundle_version, title })
}

/// What a token for a stored record is answered with when the record's IPA cannot be
/// installed directly: `已拦截安装：` and the inspection's summary; nothing when it can.
pub fn install_block_message(inspection: &IpaInspection) -> (r: Option<String>)
    ensures
        opt_text(r) == (if inspection.direct_install_ok {
            None
        } else {
            Some("已拦截安装："@ + inspection.summary@)
        }),
{
    if crate::delivery::inspection_blocks_install(inspection) {
        let mut buf: Vec<char> = Vec::new();
        push_str(&mut buf, "已拦截安装：");
        push_str(&mut buf, inspection.summary.as_str());
        Some(string_from_chars(buf.as_slice()))
    } else {
        None
    }
}

} // verus!
