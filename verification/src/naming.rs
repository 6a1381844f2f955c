//! File names, slugs and masked secrets derived from user-supplied text.
use vstd::prelude::*;
use vstd::string::StringSliceAdditionalSpecFns;
use vstd::utf8::{decode_utf8, encode_utf8, is_char_boundary};
use crate::bundle::{char_position_from, find_char, slice_chars};
use crate::text::{chars_of, hex_digit, hex_lower_char, push_chars, push_str, string_from_chars, trim, trim_white};

verus! {

/// Whether a character is kept in an IPA file name: ASCII letters and digits and `.-_@`.
pub open spec fn keeps_in_ipa_name(c: char) -> bool {
    ('0' <= c <= '9') || ('A' <= c <= 'Z') || ('a' <= c <= 'z') || c == '.' || c == '-' || c == '_' || c == '@'
}

/// Whether a character is kept in an uploaded file name: ASCII letters and digits and `.-_`.
pub open spec fn keeps_in_upload_name(c: char) -> bool {
    ('0' <= c <= '9') || ('A' <= c <= 'Z') || ('a' <= c <= 'z') || c == '.' || c == '-' || c == '_'
}

/// The name with every character that is not kept replaced by `_`.
pub open spec fn cleaned_ipa_name(s: Seq<char>) -> Seq<char> {
    Seq::new(s.len(), |i: int| if keeps_in_ipa_name(s[i]) { s[i] } else { '_' })
}

/// The last position of `c` in `s` before `end`.
pub open spec fn last_position_before(s: Seq<char>, c: char, end: int) -> Option<int>
    decreases end,
{
    if end <= 0 || end > s.len() {
        None
    } else if s[end - 1] == c {
        Some(end - 1)
    } else {
        last_position_before(s, c, end - 1)
    }
}

/// The last position of `c` in `s`.
pub open spec fn last_position(s: Seq<char>, c: char) -> Option<int> {
    last_position_before(s, c, s.len() as int)
}

/// Two lower-case hexadecimal digits for each character code (all below 256 here).
pub open spec fn hex_of_codes(s: Seq<char>) -> Seq<char>
    decreases s.len(),
{
    if s.len() == 0 {
        Seq::empty()
    } else {
        hex_of_codes(s.drop_last()) + seq![hex_lower_char(((s.last() as u32) / 16) as nat), hex_lower_char(((s.last() as u32) % 16) as nat)]
    }
}

/// Whether shortening an over-long name works: a bundle-id suffix (from the last `@`)
/// of more than 251 bytes after a base of more than 251 bytes cannot be shortened.
pub open spec fn ipa_name_shortenable(name: Seq<char>) -> bool {
    let c = cleaned_ipa_name(name);
    !(c.len() > 255 && match last_position(c, '@') {
        Some(p) => p > 251 && c.len() - p > 251,
        None => false,
    })
}

/// A safe IPA file name: every character outside ASCII letters, digits and `.-_@`
/// becomes `_`; an empty name becomes `download.ipa`; a name of more than 255 bytes keeps
/// at most 50 leading bytes, `...` and its bundle-id suffix (from the last `@`, else
/// `.ipa`), or becomes `download_<hex of its first 8 bytes>.ipa` when it has no base.
pub open spec fn spec_sanitize_ipa_filename(name: Seq<char>) -> Seq<char> {
    let c = cleaned_ipa_name(name);
    let at = last_position(c, '@');
    let base_len: int = match at {
        Some(p) => p,
        None => c.len() - 4,
    };
    let suffix = match at {
        Some(p) => c.subrange(p, c.len() as int),
        None => ".ipa"@,
    };
    let fallback = "download_"@ + hex_of_codes(c.subrange(0, 8)) + ".ipa"@;
    if c.len() == 0 {
        "download.ipa"@
    } else if c.len() <= 255 {
        c
    } else if base_len == 0 {
        fallback
    } else if base_len > 251 {
        let budget = 251 - suffix.len();
        if budget > 0 {
            c.subrange(0, if budget < 50 { budget } else { 50 }) + "..."@ + suffix
        } else {
            fallback
        }
    } else {
        c
    }
}

fn keep_ipa_char(c: char) -> (r: bool)
    ensures
        r == keeps_in_ipa_name(c),
{
    ('0' <= c && c <= '9') || ('A' <= c && c <= 'Z') || ('a' <= c && c <= 'z') || c == '.' || c == '-' || c == '_' || c == '@'
}

pub(crate) fn last_char_position(s: &[char], c: char) -> (r: Option<usize>)
    ensures
        match last_position(s@, c) {
            Some(p) => r matches Some(u) && u as int == p,
            None => r is None,
        },
        r matches Some(u) ==> u < s@.len() && s@[u as int] == c,
{
    let mut end = s.len();
    while end > 0
        invariant
            end <= s@.len(),
            last_position(s@, c) == last_position_before(s@, c, end as int),
        decreases end,
    {
        if s[end - 1] == c {
            return Some(end - 1);
        }
        end = end - 1;
    }
    None
}

fn hex_codes(s: &[char]) -> (r: Vec<char>)
    requires
        forall|i: int| 0 <= i < s@.len() ==> (s@[i] as u32) < 256,
    ensures
        r@ == hex_of_codes(s@),
{
    let mut out: Vec<char> = Vec::new();
    let mut i: usize = 0;
    while i < s.len()
        invariant
            i <= s@.len(),
            forall|k: int| 0 <= k < s@.len() ==> (s@[k] as u32) < 256,
            out@ == hex_of_codes(s@.subrange(0, i as int)),
        decreases s@.len() - i,
    {
        assert(s@.subrange(0, i + 1).drop_last() =~= s@.subrange(0, i as int));
        let code = s[i] as u32;
        assert(code < 256);
        let byte = code as u8;
        out.push(hex_digit(byte / 16, false));
        out.push(hex_digit(byte % 16, false));
        i = i + 1;
    }
    assert(s@.subrange(0, s@.len() as int) =~= s@);
    out
}

/// A safe IPA file name (see [`spec_sanitize_ipa_filename`]).
pub fn sanitize_ipa_filename(name: &str) -> (r: String)
    requires
        ipa_name_shortenable(name@),
    ensures
        r@ == spec_sanitize_ipa_filename(name@),
{
    let cs = chars_of(name);
    let mut cleaned: Vec<char> = Vec::new();
    let mut i: usize = 0;
    while i < cs.len()
        invariant
            i <= cs@.len(),
            cs@ == name@,
            cleaned@ == cleaned_ipa_name(cs@).subrange(0, i as int),
        decreases cs@.len() - i,
    {
        let c = cs[i];
        if keep_ipa_char(c) {
            cleaned.push(c);
        } else {
            cleaned.push('_');
        }
        i = i + 1;
        assert(cleaned@ =~= cleaned_ipa_name(cs@).subrange(0, i as int));
    }
    let ghost c = cleaned_ipa_name(name@);
    assert(cleaned@ =~= c);
    if cleaned.len() == 0 {
        return string_from_chars(chars_of("download.ipa").as_slice());
    }
    if cleaned.len() <= 255 {
        return string_from_chars(cleaned.as_slice());
    }
    assert forall|k: int| 0 <= k < c.len() implies (c[k] as u32) < 256 by {
        assert(keeps_in_ipa_name(c[k]) || c[k] == '_');
    }
    let at = last_char_position(cleaned.as_slice(), '@');
    let base_len: usize = match at {
        Some(p) => p,
        None => cleaned.len() - 4,
    };
    if base_len == 0 {
        let mut buf: Vec<char> = Vec::new();
        push_str(&mut buf, "download_");
        let head = slice_chars(cleaned.as_slice(), 0, 8);
        push_chars(&mut buf, hex_codes(head.as_slice()).as_slice());
        push_str(&mut buf, ".ipa");
        return string_from_chars(buf.as_slice());
    }
    if base_len > 251 {
        let suffix: Vec<char> = match at {
            Some(p) => slice_chars(cleaned.as_slice(), p, cleaned.len()),
            None => chars_of(".ipa"),
        };
        proof {
            reveal_strlit(".ipa");
        }
        let budget = 251 - suffix.len();
        if budget > 0 {
            let keep = if budget < 50 { budget } else { 50 };
            let mut buf: Vec<char> = Vec::new();
            push_chars(&mut buf, slice_chars(cleaned.as_slice(), 0, keep).as_slice());
            push_str(&mut buf, "...");
            push_chars(&mut buf, suffix.as_slice());
            return string_from_chars(buf.as_slice());
        } else {
            let mut buf: Vec<char> = Vec::new();
            push_str(&mut buf, "download_");
            let head = slice_chars(cleaned.as_slice(), 0, 8);
            push_chars(&mut buf, hex_codes(head.as_slice()).as_slice());
            push_str(&mut buf, ".ipa");
            return string_from_chars(buf.as_slice());
        }
    }
    string_from_chars(cleaned.as_slice())
}

/// The text trimmed of white space, when something is left.
pub open spec fn non_blank(s: Seq<char>) -> Option<Seq<char>> {
    if trim_white(s).len() == 0 { None } else { Some(trim_white(s)) }
}

/// The file name an IPA of an app gets: `<name>-<version>.ipa`, or
/// `<name>-<version>@<bundle id>.ipa` when the bundle id is not blank, each part trimmed.
pub open spec fn canonical_raw_name(display_name: Seq<char>, version: Seq<char>, bundle_id: Option<Seq<char>>) -> Seq<char> {
    let id = match bundle_id {
        Some(b) => trim_white(b),
        None => Seq::empty(),
    };
    if id.len() == 0 {
        trim_white(display_name) + "-"@ + trim_white(version) + ".ipa"@
    } else {
        trim_white(display_name) + "-"@ + trim_white(version) + "@"@ + id + ".ipa"@
    }
}

/// The canonical file name does not depend on white space around its parts, and a blank
/// bundle id gives the same name as none.
pub proof fn lemma_canonical_name_trimmed(display_name: Seq<char>, version: Seq<char>, bundle_id: Option<Seq<char>>, blank: Seq<char>)
    requires
        trim_white(blank).len() == 0,
    ensures
        canonical_raw_name(display_name, version, bundle_id) == canonical_raw_name(
            trim_white(display_name),
            trim_white(version),
            match bundle_id {
                Some(b) => Some(trim_white(b)),
                None => None,
            },
        ),
        canonical_raw_name(display_name, version, Some(blank)) == canonical_raw_name(display_name, version, None),
{
    crate::text::lemma_trim_idempotent(display_name);
    crate::text::lemma_trim_idempotent(version);
    match bundle_id {
        Some(b) => crate::text::lemma_trim_idempotent(b),
        None => {},
    }
}

/// Whether a text ends in `.ipa`.
pub open spec fn ends_in_ipa(s: Seq<char>) -> bool {
    s.len() >= 4 && s[s.len() - 4] == '.' && s[s.len() - 3] == 'i' && s[s.len() - 2] == 'p' && s[s.len() - 1] == 'a'
}

/// Whether every character of a text is kept in an IPA file name (ASCII letters and
/// digits and `.-_@`); in particular there is no `/` and no `\`.
pub open spec fn safe_ipa_chars(s: Seq<char>) -> bool {
    forall|i: int| 0 <= i < s.len() ==> keeps_in_ipa_name(#[trigger] s[i])
}

proof fn lemma_last_position_found(s: Seq<char>, c: char, end: int)
    ensures
        last_position_before(s, c, end) matches Some(p) ==> 0 <= p < end && s[p] == c
            && forall|k: int| p < k < end ==> #[trigger] s[k] != c,
    decreases end,
{
    if 0 < end <= s.len() && s[end - 1] != c {
        lemma_last_position_found(s, c, end - 1);
    }
}

proof fn lemma_hex_codes_safe(s: Seq<char>)
    ensures
        safe_ipa_chars(hex_of_codes(s)),
    decreases s.len(),
{
    if s.len() > 0 {
        lemma_hex_codes_safe(s.drop_last());
        let h = hex_of_codes(s.drop_last());
        let a = hex_lower_char(((s.last() as u32) / 16) as nat);
        let b = hex_lower_char(((s.last() as u32) % 16) as nat);
        assert(keeps_in_ipa_name(a));
        assert(keeps_in_ipa_name(b));
        let t = h + seq![a, b];
        assert(hex_of_codes(s) == t);
        assert forall|i: int| 0 <= i < t.len() implies keeps_in_ipa_name(#[trigger] t[i]) by {
            if i < h.len() {
                assert(t[i] == h[i]);
            }
        }
    }
}

/// The canonical file name of an app's IPA ends in `.ipa` and holds only ASCII letters,
/// digits and `.-_@` (so no `/` and no `\`); when the trimmed parts use only such
/// characters (no `@`), the bundle id is not blank and the name fits 255 characters, it is
/// exactly `<name>-<version>@<bundle id>.ipa` of the trimmed parts.
pub proof fn lemma_canonical_name_shape(display_name: Seq<char>, version: Seq<char>, bundle_id: Option<Seq<char>>)
    requires
        ipa_name_shortenable(canonical_raw_name(display_name, version, bundle_id)),
    ensures
        ends_in_ipa(spec_sanitize_ipa_filename(canonical_raw_name(display_name, version, bundle_id))),
        safe_ipa_chars(spec_sanitize_ipa_filename(canonical_raw_name(display_name, version, bundle_id))),
        ({
            let raw = canonical_raw_name(display_name, version, bundle_id);
            let d = trim_white(display_name);
            let v = trim_white(version);
            (bundle_id matches Some(b) && trim_white(b).len() > 0 && raw.len() <= 255
                && (forall|i: int| 0 <= i < d.len() ==> keeps_in_ipa_name(#[trigger] d[i]) && d[i] != '@')
                && (forall|i: int| 0 <= i < v.len() ==> keeps_in_ipa_name(#[trigger] v[i]) && v[i] != '@')
                && (forall|i: int| 0 <= i < trim_white(b).len() ==> keeps_in_ipa_name(#[trigger] trim_white(b)[i]) && trim_white(b)[i] != '@'))
            ==> spec_sanitize_ipa_filename(raw) == d + "-"@ + v + "@"@ + trim_white(bundle_id->0) + ".ipa"@
        }),
{
    reveal_strlit(".ipa");
    reveal_strlit("-");
    reveal_strlit("@");
    reveal_strlit("...");
    reveal_strlit("download_");
    reveal_strlit("download.ipa");
    let raw = canonical_raw_name(display_name, version, bundle_id);
    let c = cleaned_ipa_name(raw);
    let n = c.len();
    assert(raw.len() >= 4);
    assert(raw[raw.len() - 4] == '.' && raw[raw.len() - 3] == 'i' && raw[raw.len() - 2] == 'p' && raw[raw.len() - 1] == 'a');
    assert(ends_in_ipa(c));
    assert(safe_ipa_chars(c));
    lemma_last_position_found(c, '@', n as int);
    lemma_hex_codes_safe(c.subrange(0, 8));
    let fallback = "download_"@ + hex_of_codes(c.subrange(0, 8)) + ".ipa"@;
    assert(safe_ipa_chars(fallback)) by {
        let h = hex_of_codes(c.subrange(0, 8));
        assert forall|i: int| 0 <= i < fallback.len() implies keeps_in_ipa_name(#[trigger] fallback[i]) by {
            if i < 9 {
                assert(fallback[i] == "download_"@[i]);
            } else if i < 9 + h.len() {
                assert(fallback[i] == h[i - 9]);
            } else {
                assert(fallback[i] == ".ipa"@[i - 9 - h.len()]);
            }
        }
    }
    assert(ends_in_ipa(fallback));
    let out = spec_sanitize_ipa_filename(raw);
    if n > 255 {
        let at = last_position(c, '@');
        let suffix = match at {
            Some(p) => c.subrange(p, n as int),
            None => ".ipa"@,
        };
        if let Some(p) = at {
            assert(p < n - 4);
        }
        assert(ends_in_ipa(suffix));
        assert(safe_ipa_chars(suffix));
        let base_len: int = match at {
            Some(p) => p,
            None => n - 4,
        };
        if base_len > 251 && base_len != 0 {
            let budget = 251 - suffix.len();
            if budget > 0 {
                let pre = c.subrange(0, if budget < 50 { budget } else { 50 });
                let t = pre + "..."@ + suffix;
                assert forall|i: int| 0 <= i < t.len() implies keeps_in_ipa_name(#[trigger] t[i]) by {
                    if i < pre.len() {
                        assert(t[i] == c[i]);
                    } else if i < pre.len() + 3 {
                        assert(t[i] == '.');
                    } else {
                        assert(t[i] == suffix[i - pre.len() - 3]);
                    }
                }
                assert(t[t.len() - 1] == suffix[suffix.len() - 1]);
                assert(t[t.len() - 2] == suffix[suffix.len() - 2]);
                assert(t[t.len() - 3] == suffix[suffix.len() - 3]);
                assert(t[t.len() - 4] == suffix[suffix.len() - 4]);
            }
        }
    }
    if let Some(b) = bundle_id {
        let d = trim_white(display_name);
        let v = trim_white(version);
        let id = trim_white(b);
        if id.len() > 0 && raw.len() <= 255
            && (forall|i: int| 0 <= i < d.len() ==> keeps_in_ipa_name(#[trigger] d[i]) && d[i] != '@')
            && (forall|i: int| 0 <= i < v.len() ==> keeps_in_ipa_name(#[trigger] v[i]) && v[i] != '@')
            && (forall|i: int| 0 <= i < id.len() ==> keeps_in_ipa_name(#[trigger] id[i]) && id[i] != '@') {
            assert forall|i: int| 0 <= i < raw.len() implies keeps_in_ipa_name(#[trigger] raw[i]) by {
                if i < d.len() {
                    assert(raw[i] == d[i]);
                } else if i == d.len() {
                    assert(raw[i] == '-');
                } else if i < d.len() + 1 + v.len() {
                    assert(raw[i] == v[i - d.len() - 1]);
                } else if i == d.len() + 1 + v.len() {
                    assert(raw[i] == '@');
                } else if i < d.len() + 2 + v.len() + id.len() {
                    assert(raw[i] == id[i - d.len() - 2 - v.len()]);
                } else {
                    assert(raw[i] == ".ipa"@[i - d.len() - 2 - v.len() - id.len()]);
                }
            }
            assert(c =~= raw);
        }
    }
}

/// The optional text as a character sequence.
pub open spec fn opt_str(o: Option<&str>) -> Option<Seq<char>> {
    match o {
        Some(s) => Some(s@),
        None => None,
    }
}

/// The safe file name of an app's IPA (see [`canonical_raw_name`] and
/// [`spec_sanitize_ipa_filename`]).
pub fn canonical_ipa_filename(display_name: &str, version: &str, bundle_id: Option<&str>) -> (r: String)
    requires
        ipa_name_shortenable(canonical_raw_name(display_name@, version@, opt_str(bundle_id))),
    ensures
        r@ == spec_sanitize_ipa_filename(canonical_raw_name(display_name@, version@, opt_str(bundle_id))),
{
    let raw = canonical_raw_ipa_name(display_name, version, bundle_id);
    sanitize_ipa_filename(raw.as_str())
}

/// The unsanitised file name of an app's IPA (see [`canonical_raw_name`]).
pub fn canonical_raw_ipa_name(display_name: &str, version: &str, bundle_id: Option<&str>) -> (r: String)
    ensures
        r@ == canonical_raw_name(display_name@, version@, opt_str(bundle_id)),
{
    let name = trim(display_name);
    let ver = trim(version);
    let id = match bundle_id {
        Some(b) => trim(b),
        None => String::new(),
    };
    let mut buf: Vec<char> = Vec::new();
    push_str(&mut buf, name.as_str());
    push_str(&mut buf, "-");
    push_str(&mut buf, ver.as_str());
    if !id.as_str().is_empty() {
        push_str(&mut buf, "@");
        push_str(&mut buf, id.as_str());
    }
    push_str(&mut buf, ".ipa");
    string_from_chars(buf.as_slice())
}

/// Whether a name can be made a safe IPA file name (see [`ipa_name_shortenable`]).
pub fn ipa_name_fits(name: &str) -> (r: bool)
    ensures
        r == ipa_name_shortenable(name@),
{
    let cs = chars_of(name);
    let mut cleaned: Vec<char> = Vec::new();
    let mut i: usize = 0;
    while i < cs.len()
        invariant
            i <= cs@.len(),
            cs@ == name@,
            cleaned@ == cleaned_ipa_name(cs@).subrange(0, i as int),
        decreases cs@.len() - i,
    {
        let c = cs[i];
        if keep_ipa_char(c) {
            cleaned.push(c);
        } else {
            cleaned.push('_');
        }
        i = i + 1;
        assert(cleaned@ =~= cleaned_ipa_name(cs@).subrange(0, i as int));
    }
    assert(cleaned@ =~= cleaned_ipa_name(name@));
    let n = cleaned.len();
    if n <= 255 {
        return true;
    }
    match last_char_position(cleaned.as_slice(), '@') {
        Some(p) => !(p > 251 && n - p > 251),
        None => true,
    }
}

/// The text with every trailing `suffix` removed, repeatedly (non-empty suffix).
pub open spec fn trim_suffix_all(s: Seq<char>, suffix: Seq<char>) -> Seq<char>
    decreases s.len(),
{
    if suffix.len() > 0 && suffix.len() <= s.len() && s.subrange(s.len() - suffix.len(), s.len() as int) == suffix {
        trim_suffix_all(s.subrange(0, s.len() - suffix.len()), suffix)
    } else {
        s
    }
}

/// The text without leading `c`.
pub open spec fn trim_start_char(s: Seq<char>, c: char) -> Seq<char>
    decreases s.len(),
{
    if s.len() > 0 && s[0] == c { trim_start_char(s.subrange(1, s.len() as int), c) } else { s }
}

/// The raw slug of a download task: `<name>-<app id>-<version>`, where the name is the
/// trimmed app name (the app id when blank) and the version the trimmed version, else the
/// trimmed version id, else `latest`.
pub open spec fn task_slug_raw(app_name: Option<Seq<char>>, app_id: Seq<char>, version: Option<Seq<char>>, app_ver_id: Option<Seq<char>>) -> Seq<char> {
    let name = match app_name {
        Some(a) => match non_blank(a) { Some(t) => t, None => app_id },
        None => app_id,
    };
    let v = match version {
        Some(x) => non_blank(x),
        None => None,
    };
    let vid = match app_ver_id {
        Some(x) => non_blank(x),
        None => None,
    };
    let part = match v {
        Some(t) => t,
        None => match vid { Some(t) => t, None => "latest"@ },
    };
    name + "-"@ + app_id + "-"@ + part
}

/// The slug of a download task: the safe file name of the raw slug without trailing
/// `.ipa` and without surrounding `_`.
pub open spec fn spec_task_slug(raw: Seq<char>) -> Seq<char> {
    trim_start_char(crate::text::trim_end_char(trim_suffix_all(spec_sanitize_ipa_filename(raw), ".ipa"@), '_'), '_')
}

fn non_blank_text(s: Option<&str>) -> (r: Option<String>)
    ensures
        opt_text_seq(r) == match s { Some(x) => non_blank(x@), None => None },
{
    match s {
        Some(x) => {
            let t = trim(x);
            if t.as_str().is_empty() { None } else { Some(t) }
        },
        None => None,
    }
}

/// The text of an optional string.
pub open spec fn opt_text_seq(o: Option<String>) -> Option<Seq<char>> {
    match o {
        Some(s) => Some(s@),
        None => None,
    }
}

/// The slug of a download task (see [`task_slug_raw`] and [`spec_task_slug`]).
pub fn build_download_task_slug(app_name: Option<&str>, app_id: &str, version: Option<&str>, app_ver_id: Option<&str>) -> (r: String)
    requires
        ipa_name_shortenable(task_slug_raw(opt_str(app_name), app_id@, opt_str(version), opt_str(app_ver_id))),
    ensures
        r@ == spec_task_slug(task_slug_raw(opt_str(app_name), app_id@, opt_str(version), opt_str(app_ver_id))),
{
    let name = match non_blank_text(app_name) {
        Some(t) => t,
        None => app_id.to_owned(),
    };
    let part = match non_blank_text(version) {
        Some(t) => t,
        None => match non_blank_text(app_ver_id) {
            Some(t) => t,
            None => "latest".to_owned(),
        },
    };
    let mut buf: Vec<char> = Vec::new();
    push_str(&mut buf, name.as_str());
    push_str(&mut buf, "-");
    push_str(&mut buf, app_id);
    push_str(&mut buf, "-");
    push_str(&mut buf, part.as_str());
    let raw = string_from_chars(buf.as_slice());
    let safe = sanitize_ipa_filename(raw.as_str());
    let sc = chars_of(safe.as_str());
    let ext = chars_of(".ipa");
    let mut end: usize = sc.len();
    assert(sc@.subrange(0, sc@.len() as int) =~= sc@);
    while end >= 4 && sc[end - 4] == '.' && sc[end - 3] == 'i' && sc[end - 2] == 'p' && sc[end - 1] == 'a'
        invariant
            end <= sc@.len(),
            ext@ == ".ipa"@,
            trim_suffix_all(sc@, ".ipa"@) == trim_suffix_all(sc@.subrange(0, end as int), ".ipa"@),
        decreases end,
    {
        proof { reveal_strlit(".ipa"); }
        let ghost q = sc@.subrange(0, end as int);
        assert(q.subrange(q.len() - 4, q.len() as int) =~= ".ipa"@);
        assert(q.subrange(0, q.len() - 4) =~= sc@.subrange(0, end - 4));
        end = end - 4;
    }
    proof {
        reveal_strlit(".ipa");
        let q = sc@.subrange(0, end as int);
        if end >= 4 && q.subrange(q.len() - 4, q.len() as int) == ".ipa"@ {
            assert(q.subrange(q.len() - 4, q.len() as int)[0] == sc@[end - 4]);
            assert(q.subrange(q.len() - 4, q.len() as int)[1] == sc@[end - 3]);
            assert(q.subrange(q.len() - 4, q.len() as int)[2] == sc@[end - 2]);
            assert(q.subrange(q.len() - 4, q.len() as int)[3] == sc@[end - 1]);
        }
    }
    let head = slice_chars(sc.as_slice(), 0, end);
    let tail_trimmed = crate::text::trim_end_all(head.as_slice(), '_');
    let mut start: usize = 0;
    assert(tail_trimmed@.subrange(0, tail_trimmed@.len() as int) =~= tail_trimmed@);
    while start < tail_trimmed.len() && tail_trimmed[start] == '_'
        invariant
            start <= tail_trimmed@.len(),
            trim_start_char(tail_trimmed@, '_') == trim_start_char(tail_trimmed@.subrange(start as int, tail_trimmed@.len() as int), '_'),
        decreases tail_trimmed@.len() - start,
    {
        let ghost rest = tail_trimmed@.subrange(start as int, tail_trimmed@.len() as int);
        assert(rest.subrange(1, rest.len() as int) =~= tail_trimmed@.subrange(start + 1, tail_trimmed@.len() as int));
        start = start + 1;
    }
    let out = slice_chars(tail_trimmed.as_slice(), start, tail_trimmed.len());
    string_from_chars(out.as_slice())
}

/// The part of a text after the last `c` (all of it when there is none).
pub open spec fn after_last(s: Seq<char>, c: char) -> Seq<char> {
    match last_position(s, c) {
        Some(p) => s.subrange(p + 1, s.len() as int),
        None => s,
    }
}

/// A safe name for an uploaded file: its last path segment (after `/`, then after `\`),
/// with every character outside ASCII letters, digits and `.-_` replaced by `_`;
/// `upload.ipa` when nothing is left.
pub open spec fn spec_upload_name(name: Seq<char>) -> Seq<char> {
    let base = after_last(after_last(name, '/'), '\\');
    let cleaned = Seq::new(base.len(), |i: int| if keeps_in_upload_name(base[i]) { base[i] } else { '_' });
    if cleaned.len() == 0 { "upload.ipa"@ } else { cleaned }
}

fn after_last_char(s: &[char], c: char) -> (r: Vec<char>)
    ensures
        r@ == after_last(s@, c),
{
    match last_char_position(s, c) {
        Some(p) => {
            let n = s.len();
            assert(p < n);
            slice_chars(s, p + 1, n)
        },
        None => slice_chars(s, 0, s.len()),
    }
}

/// A safe name for an uploaded file (see [`spec_upload_name`]).
pub fn sanitize_upload_filename(name: &str) -> (r: String)
    ensures
        r@ == spec_upload_name(name@),
{
    let cs = chars_of(name);
    assert(cs@.subrange(0, cs@.len() as int) =~= cs@);
    let a = after_last_char(cs.as_slice(), '/');
    assert(a@.subrange(0, a@.len() as int) =~= a@);
    let base = after_last_char(a.as_slice(), '\\');
    let ghost b = base@;
    let mut cleaned: Vec<char> = Vec::new();
    let mut i: usize = 0;
    while i < base.len()
        invariant
            i <= base@.len(),
            b == base@,
            cleaned@ == Seq::new(b.len(), |k: int| if keeps_in_upload_name(b[k]) { b[k] } else { '_' }).subrange(0, i as int),
        decreases base@.len() - i,
    {
        let c = base[i];
        if ('0' <= c && c <= '9') || ('A' <= c && c <= 'Z') || ('a' <= c && c <= 'z') || c == '.' || c == '-' || c == '_' {
            cleaned.push(c);
        } else {
            cleaned.push('_');
        }
        i = i + 1;
        assert(cleaned@ =~= Seq::new(b.len(), |k: int| if keeps_in_upload_name(b[k]) { b[k] } else { '_' }).subrange(0, i as int));
    }
    if cleaned.len() == 0 {
        return "upload.ipa".to_owned();
    }
    assert(cleaned@ =~= Seq::new(b.len(), |k: int| if keeps_in_upload_name(b[k]) { b[k] } else { '_' }));
    string_from_chars(cleaned.as_slice())
}

/// The first `k` bytes of the text (a character boundary), as text.
fn leading_bytes(s: &str, k: usize) -> (r: String)
    requires
        k <= s.spec_bytes().len(),
        is_char_boundary(s.spec_bytes(), k as int),
    ensures
        r@ == decode_utf8(encode_utf8(s@).subrange(0, k as int)),
{
    let (head, _) = s.split_at(k);
    proof {
        vstd::utf8::encode_utf8_decode_utf8(head@);
    }
    head.to_owned()
}

/// The text from byte `k` on (a character boundary), as text.
fn trailing_bytes(s: &str, k: usize) -> (r: String)
    requires
        k <= s.spec_bytes().len(),
        is_char_boundary(s.spec_bytes(), k as int),
    ensures
        r@ == decode_utf8(encode_utf8(s@).subrange(k as int, encode_utf8(s@).len() as int)),
{
    let (_, tail) = s.split_at(k);
    proof {
        vstd::utf8::encode_utf8_decode_utf8(tail@);
    }
    tail.to_owned()
}

/// Whether the account id of a token can be taken: a token longer than 16 bytes must
/// not split a character at byte 16.
pub open spec fn account_token_splittable(token: Seq<char>) -> bool {
    encode_utf8(token).len() > 16 ==> is_char_boundary(encode_utf8(token), 16)
}

/// The account id of a session token: `tok_` and the token's first 16 bytes (all of it
/// when shorter).
pub open spec fn spec_account_id(token: Seq<char>) -> Seq<char> {
    let b = encode_utf8(token);
    "tok_"@ + decode_utf8(b.subrange(0, if b.len() < 16 { b.len() as int } else { 16 }))
}

/// The account id of a session token (see [`spec_account_id`]).
pub fn get_account_id_for_token(token: &str) -> (r: String)
    requires
        account_token_splittable(token@),
    ensures
        r@ == spec_account_id(token@),
{
    let n = token.as_bytes().len();
    let k = if n < 16 { n } else { 16 };
    proof {
        vstd::utf8::encode_utf8_valid_utf8(token@);
        vstd::utf8::is_char_boundary_start_end_of_seq(token.spec_bytes());
    }
    let head = leading_bytes(token, k);
    let mut buf: Vec<char> = Vec::new();
    push_str(&mut buf, "tok_");
    push_str(&mut buf, head.as_str());
    string_from_chars(buf.as_slice())
}

/// Whether a token can be masked: a trimmed token longer than 8 bytes must not split a
/// character at its fourth byte or four bytes before its end.
pub open spec fn token_maskable(token: Seq<char>) -> bool {
    let b = encode_utf8(trim_white(token));
    b.len() > 8 ==> is_char_boundary(b, 4) && is_char_boundary(b, b.len() - 4)
}

/// A token shown safely: `****` for a trimmed token of at most 8 bytes, else its first
/// four bytes, `****` and its last four bytes.
pub open spec fn spec_masked_token(token: Seq<char>) -> Seq<char> {
    let b = encode_utf8(trim_white(token));
    if b.len() <= 8 {
        "****"@
    } else {
        decode_utf8(b.subrange(0, 4)) + "****"@ + decode_utf8(b.subrange(b.len() - 4, b.len() as int))
    }
}

/// A token shown safely (see [`spec_masked_token`]).
pub fn mask_github_token(token: &str) -> (r: String)
    requires
        token_maskable(token@),
    ensures
        r@ == spec_masked_token(token@),
{
    let trimmed = trim(token);
    let t = trimmed.as_str();
    let n = t.as_bytes().len();
    if n <= 8 {
        return "****".to_owned();
    }
    let head = leading_bytes(t, 4);
    let tail = trailing_bytes(t, n - 4);
    let mut buf: Vec<char> = Vec::new();
    push_str(&mut buf, head.as_str());
    push_str(&mut buf, "****");
    push_str(&mut buf, tail.as_str());
    string_from_chars(buf.as_slice())
}

/// Where the run of ASCII digits that starts at `i` ends.
pub open spec fn digit_run_end(s: Seq<char>, i: int) -> int
    decreases s.len() - i,
{
    if 0 <= i < s.len() && '0' <= s[i] <= '9' {
        digit_run_end(s, i + 1)
    } else {
        i
    }
}

/// The position of the `)` when `(`, a non-empty run of ASCII digits and `)` start at `p`.
pub open spec fn digits_in_parens_at(s: Seq<char>, p: int) -> Option<int> {
    let q = digit_run_end(s, p + 1);
    if 0 <= p < s.len() && s[p] == '(' && q > p + 1 && q < s.len() && s[q] == ')' {
        Some(q)
    } else {
        None
    }
}

/// The digits of the first `(digits)` at or after position `p`.
pub open spec fn pr_app_id_from(s: Seq<char>, p: int) -> Option<Seq<char>>
    decreases s.len() - p,
{
    if p < 0 || p >= s.len() {
        None
    } else {
        match digits_in_parens_at(s, p) {
            Some(q) => Some(s.subrange(p + 1, q)),
            None => pr_app_id_from(s, p + 1),
        }
    }
}

/// The app id in a pull-request title: the digits of its first `(` + one or more ASCII
/// digits + `)`.
pub open spec fn spec_pr_app_id(title: Seq<char>) -> Option<Seq<char>> {
    pr_app_id_from(title, 0)
}

pub(crate) proof fn lemma_run_bounds(s: Seq<char>, j: int)
    requires
        0 <= j <= s.len(),
    ensures
        j <= digit_run_end(s, j) <= s.len(),
    decreases s.len() - j,
{
    if j < s.len() && '0' <= s[j] <= '9' {
        lemma_run_bounds(s, j + 1);
    }
}

/// Inside a text embedded at `off` and followed by a non-digit, a run of digits ends where
/// it ends in the embedded text.
pub(crate) proof fn lemma_run_embedded(t: Seq<char>, inner: Seq<char>, off: int, j: int)
    requires
        0 <= off,
        off + inner.len() < t.len(),
        t.subrange(off, off + inner.len()) == inner,
        !('0' <= t[off + inner.len()] <= '9'),
        0 <= j <= inner.len(),
    ensures
        digit_run_end(t, off + j) == off + digit_run_end(inner, j),
    decreases inner.len() - j,
{
    if j < inner.len() {
        assert(t[off + j] == inner[j]);
        if '0' <= inner[j] <= '9' {
            lemma_run_embedded(t, inner, off, j + 1);
        }
    }
}

/// A run of `k` digits from `start` followed by a non-digit ends at `start + k`.
pub(crate) proof fn lemma_run_of_digits(t: Seq<char>, start: int, k: int)
    requires
        0 <= start,
        0 <= k,
        start + k < t.len(),
        forall|i: int| start <= i < start + k ==> '0' <= #[trigger] t[i] <= '9',
        !('0' <= t[start + k] <= '9'),
    ensures
        digit_run_end(t, start) == start + k,
    decreases k,
{
    if k > 0 {
        lemma_run_of_digits(t, start + 1, k - 1);
    }
}

/// No `(digits)` from `i` on means none at any later position.
pub(crate) proof fn lemma_pr_app_id_none(s: Seq<char>, i: int)
    requires
        0 <= i,
        pr_app_id_from(s, i) is None,
    ensures
        forall|p: int| i <= p < s.len() ==> #[trigger] digits_in_parens_at(s, p) is None,
    decreases s.len() - i,
{
    if i < s.len() {
        lemma_pr_app_id_none(s, i + 1);
    }
}

/// Positions without `(digits)` are passed over.
pub(crate) proof fn lemma_pr_app_id_skip(s: Seq<char>, i: int, k: int)
    requires
        0 <= i <= k <= s.len(),
        forall|p: int| i <= p < k ==> #[trigger] digits_in_parens_at(s, p) is None,
    ensures
        pr_app_id_from(s, i) == pr_app_id_from(s, k),
    decreases k - i,
{
    if i < k {
        lemma_pr_app_id_skip(s, i + 1, k);
    }
}

/// The app id in a pull-request title (see [`spec_pr_app_id`])./// The app id in a pull-request title (see [`spec_pr_app_id`]).
pub fn extract_app_id_from_pr_title(title: &str) -> (r: Option<String>)
    ensures
        opt_text_seq(r) == spec_pr_app_id(title@),
{
    let cs = chars_of(title);
    let n = cs.len();
    let mut p: usize = 0;
    while p < n
        invariant
            cs@ == title@,
            n == cs@.len(),
            p <= n,
            spec_pr_app_id(title@) == pr_app_id_from(title@, p as int),
        decreases n - p,
    {
        if cs[p] == '(' {
            let mut q: usize = p + 1;
            while q < n && '0' <= cs[q] && cs[q] <= '9'
                invariant
                    cs@ == title@,
                    n == cs@.len(),
                    p < n,
                    p + 1 <= q <= n,
                    digit_run_end(title@, p + 1) == digit_run_end(title@, q as int),
                decreases n - q,
            {
                q = q + 1;
            }
            assert(digit_run_end(title@, q as int) == q);
            if q > p + 1 && q < n && cs[q] == ')' {
                assert(digits_in_parens_at(title@, p as int) == Some(q as int));
                let inner = slice_chars(cs.as_slice(), p + 1, q);
                return Some(string_from_chars(inner.as_slice()));
            }
            assert(digits_in_parens_at(title@, p as int) is None);
        }
        p = p + 1;
    }
    None
}

/// Where an app's record lives in the community archive: `apps/delisted/<id>.json`.
pub fn community_archive_app_path(app_id: &str) -> (r: String)
    ensures
        r@ == "apps/delisted/"@ + app_id@ + ".json"@,
{
    let mut buf: Vec<char> = Vec::new();
    push_str(&mut buf, "apps/delisted/");
    push_str(&mut buf, app_id);
    push_str(&mut buf, ".json");
    string_from_chars(buf.as_slice())
}

/// A relative path joined below a directory: with a `/` between them unless the directory
/// is empty or already ends with one.
pub open spec fn path_join(dir: Seq<char>, rest: Seq<char>) -> Seq<char> {
    if dir.len() == 0 || dir.last() == '/' { dir + rest } else { dir + "/"@ + rest }
}

pub(crate) fn join_path(dir: &str, rest: &str) -> (r: String)
    ensures
        r@ == path_join(dir@, rest@),
{
    let d = chars_of(dir);
    let mut buf: Vec<char> = Vec::new();
    push_chars(&mut buf, d.as_slice());
    if d.len() > 0 && d[d.len() - 1] != '/' {
        push_str(&mut buf, "/");
    }
    push_str(&mut buf, rest);
    string_from_chars(buf.as_slice())
}

/// The directory of the local app archive below the project root: `<root>/data/archive`.
pub fn resolve_archive_dir(project_root: &str) -> (r: String)
    ensures
        r@ == path_join(path_join(project_root@, "data"@), "archive"@),
{
    let data = join_path(project_root, "data");
    join_path(data.as_str(), "archive")
}

/// The file of an app in the local archive: `<archive dir>/<id>.json`.
pub fn archive_file_path(archive_dir: &str, app_id: &str) -> (r: String)
    ensures
        r@ == path_join(archive_dir@, app_id@ + ".json"@),
{
    let mut buf: Vec<char> = Vec::new();
    push_str(&mut buf, app_id);
    push_str(&mut buf, ".json");
    let name = string_from_chars(buf.as_slice());
    join_path(archive_dir, name.as_str())
}

} // verus!
