//! Contributions to the community archive of delisted apps: the checks on the app id, the
//! entry built from a local archive entry or a candidate, the countries and the texts of
//! the pull request that proposes it.
use vstd::prelude::*;
use vstd::string::StringSliceAdditionalSpecFns;
use vstd::utf8::{decode_utf8, encode_utf8, is_continuation_byte, valid_utf8};
use crate::delisted::{ArchiveApp, ArchiveVersion, LocalDelistedCandidate, is_completed};
use crate::models::{to_upper, upper_text};
use crate::ota::string_from_utf8;
use crate::records::{CommunityDelistedAppDetail, CommunityVersion, DownloadRecord};
use crate::apple::{base64_encoded, encode_base64};
use crate::delisted::{CandidateView, either, texts, version_views, with_region};
use crate::json::{json_get, json_member, json_text, number_as_i64, JsonNode};
use crate::versions_order::{key_less, less_key, spec_version_key, version_key};
use crate::text::{chars_of, decimal, decimal_signed, opt_text, push_str, seq_starts_with, spec_decimal, spec_decimal_signed, spec_join, starts_with, string_from_chars, trim, trim_white};

verus! {

/// Whether a character is an ASCII digit.
pub open spec fn is_ascii_digit(c: char) -> bool {
    '0' <= c <= '9'
}

/// Whether every character is an ASCII digit.
pub open spec fn all_digits(t: Seq<char>) -> bool {
    forall|i: int| 0 <= i < t.len() ==> is_ascii_digit(#[trigger] t[i])
}

/// The app id of a publication, trimmed: refused when empty or not all ASCII digits.
pub open spec fn spec_publish_app_id(app_id: Seq<char>) -> Result<Seq<char>, Seq<char>> {
    let t = trim_white(app_id);
    if t.len() == 0 {
        Err("app_id 不能为空"@)
    } else if !all_digits(t) {
        Err("app_id 必须是数字 Apple ID"@)
    } else {
        Ok(t)
    }
}

/// Whether the outcome is the given one.
pub open spec fn text_outcome(r: Result<String, String>, s: Result<Seq<char>, Seq<char>>) -> bool {
    match s {
        Ok(t) => r matches Ok(v) && v@ == t,
        Err(e) => r matches Err(m) && m@ == e,
    }
}

/// The app id of a publication (see [`spec_publish_app_id`]).
pub fn publish_app_id(app_id: &str) -> (r: Result<String, String>)
    ensures
        text_outcome(r, spec_publish_app_id(app_id@)),
{
    let t = trim(app_id);
    if t.as_str().is_empty() {
        return Err("app_id 不能为空".to_owned());
    }
    let cs = chars_of(t.as_str());
    let mut i: usize = 0;
    while i < cs.len()
        invariant
            i <= cs@.len(),
            cs@ == t@,
            t@ == trim_white(app_id@),
            forall|k: int| 0 <= k < i ==> is_ascii_digit(#[trigger] cs@[k]),
        decreases cs@.len() - i,
    {
        if cs[i] < '0' || cs[i] > '9' {
            assert(!is_ascii_digit(t@[i as int]));
            return Err("app_id 必须是数字 Apple ID".to_owned());
        }
        i = i + 1;
    }
    Ok(t)
}

/// The app id of a contribution being prepared, trimmed: refused when empty.
pub open spec fn spec_prepare_app_id(app_id: Seq<char>) -> Result<Seq<char>, Seq<char>> {
    let t = trim_white(app_id);
    if t.len() == 0 {
        Err("app_id 不能为空"@)
    } else {
        Ok(t)
    }
}

/// The app id of a contribution being prepared (see [`spec_prepare_app_id`]).
pub fn prepare_app_id(app_id: &str) -> (r: Result<String, String>)
    ensures
        text_outcome(r, spec_prepare_app_id(app_id@)),
{
    let t = trim(app_id);
    if t.as_str().is_empty() {
        Err("app_id 不能为空".to_owned())
    } else {
        Ok(t)
    }
}

/// Whether the first two bytes of the id end on a character boundary, as cutting them out
/// needs (ids shorter than two bytes are not cut).
pub open spec fn icon_prefix_cuttable(app_id: Seq<char>) -> bool {
    encode_utf8(app_id).len() < 3 || !is_continuation_byte(encode_utf8(app_id)[2])
}

/// The directory of an app's icon: the first two bytes of its id, or the whole id when it
/// is shorter.
pub open spec fn icon_prefix(app_id: Seq<char>) -> Seq<char> {
    let b = encode_utf8(app_id);
    if b.len() < 2 {
        app_id
    } else {
        decode_utf8(b.subrange(0, 2))
    }
}

/// Where an app's icon is kept in the community archive:
/// `assets/icons/<prefix>/<id>.png` (see [`icon_prefix`]).
pub open spec fn spec_icon_asset_path(app_id: Seq<char>) -> Seq<char> {
    "assets/icons/"@ + icon_prefix(app_id) + "/"@ + app_id + ".png"@
}

/// Where an app's icon is kept in the community archive (see [`spec_icon_asset_path`]).
pub fn icon_asset_path(app_id: &str) -> (r: String)
    requires
        icon_prefix_cuttable(app_id@),
    ensures
        r@ == spec_icon_asset_path(app_id@),
{
    let b = app_id.as_bytes();
    let prefix = if b.len() < 2 {
        app_id.to_owned()
    } else {
        let mut head: Vec<u8> = Vec::new();
        head.push(b[0]);
        head.push(b[1]);
        let ghost bytes = encode_utf8(app_id@);
        proof {
            assert(head@ =~= bytes.subrange(0, 2));
            vstd::utf8::encode_utf8_valid_utf8(app_id@);
            if bytes.len() == 2 {
                vstd::utf8::is_char_boundary_start_end_of_seq(bytes);
            } else {
                vstd::utf8::is_char_boundary_iff_not_is_continuation_byte(bytes, 2);
            }
            vstd::utf8::valid_utf8_split(bytes, 2);
        }
        match string_from_utf8(head) {
            Ok(p) => p,
            Err(_) => {
                assert(false);
                String::new()
            },
        }
    };
    let mut buf: Vec<char> = Vec::new();
    push_str(&mut buf, "assets/icons/");
    push_str(&mut buf, prefix.as_str());
    push_str(&mut buf, "/");
    push_str(&mut buf, app_id);
    push_str(&mut buf, ".png");
    string_from_chars(buf.as_slice())
}

/// The regions of the completed downloads of an app, in the order they first appear (see
/// [`with_region`]: trimmed, upper-cased, not empty, each once).
pub open spec fn spec_app_regions(records: Seq<DownloadRecord>, app_id: Seq<char>) -> Seq<Seq<char>>
    decreases records.len(),
{
    if records.len() == 0 {
        Seq::empty()
    } else {
        let prev = spec_app_regions(records.drop_last(), app_id);
        let r = records.last();
        if r.app_id@ == app_id && is_completed(r.status@) {
            with_region(prev, opt_text(r.account_region))
        } else {
            prev
        }
    }
}

/// The countries of an archive entry: the regions of the app's completed downloads (see
/// [`spec_app_regions`]), or `CN` when there are none.
pub open spec fn spec_archive_countries(records: Seq<DownloadRecord>, app_id: Seq<char>) -> Seq<Seq<char>> {
    let regions = spec_app_regions(records, app_id);
    if regions.len() == 0 {
        seq!["CN"@]
    } else {
        regions
    }
}

fn contains_text(v: &Vec<String>, t: &str) -> (r: bool)
    ensures
        r == texts(v@).contains(t@),
{
    let mut i: usize = 0;
    while i < v.len()
        invariant
            i <= v@.len(),
            forall|k: int| 0 <= k < i ==> v@[k]@ != t@,
        decreases v@.len() - i,
    {
        if crate::apple::same_text(v[i].as_str(), t) {
            assert(texts(v@)[i as int] == t@);
            return true;
        }
        i = i + 1;
    }
    proof {
        if texts(v@).contains(t@) {
            let k = choose|k: int| 0 <= k < texts(v@).len() && texts(v@)[k] == t@;
            assert(v@[k]@ == t@);
        }
    }
    false
}

/// The countries of an archive entry for an app (see [`spec_archive_countries`]).
pub fn archive_countries(records: &Vec<DownloadRecord>, app_id: &str) -> (r: Vec<String>)
    ensures
        texts(r@) == spec_archive_countries(records@, app_id@),
{
    let mut out: Vec<String> = Vec::new();
    let mut i: usize = 0;
    assert(records@.subrange(0, 0) =~= Seq::<DownloadRecord>::empty());
    assert(texts(out@) =~= Seq::<Seq<char>>::empty());
    while i < records.len()
        invariant
            i <= records@.len(),
            texts(out@) == spec_app_regions(records@.subrange(0, i as int), app_id@),
        decreases records@.len() - i,
    {
        let ghost prefix = records@.subrange(0, i as int + 1);
        assert(prefix.drop_last() =~= records@.subrange(0, i as int));
        let r = &records[i];
        if crate::apple::same_text(r.app_id.as_str(), app_id) && crate::delisted::completed(r.status.as_str()) {
            if let Some(reg) = &r.account_region {
                let u = to_upper(trim(reg.as_str()).as_str());
                if !u.as_str().is_empty() && !contains_text(&out, u.as_str()) {
                    let ghost before = out@;
                    out.push(u);
                    assert(texts(out@) =~= texts(before).push(upper_text(trim_white(reg@))));
                }
            }
        }
        i = i + 1;
    }
    assert(records@.subrange(0, records@.len() as int) =~= records@);
    if out.len() == 0 {
        let mut cn: Vec<String> = Vec::new();
        cn.push("CN".to_owned());
        assert(texts(cn@) =~= seq!["CN"@]);
        cn
    } else {
        out
    }
}

/// The artist of an archive entry: the one given, else who added the entry, unless that is
/// empty or `user`.
pub open spec fn entry_artist(artist_name: Option<Seq<char>>, added_by: Seq<char>) -> Option<Seq<char>> {
    either(artist_name, if added_by.len() > 0 && added_by != "user"@ { Some(added_by) } else { None })
}

/// Whether a community version is a local archive version: the same id, version, date,
/// size and description, from source `local`.
pub open spec fn is_local_version(c: CommunityVersion, v: ArchiveVersion) -> bool {
    &&& c.version_id@ == v.version_id@
    &&& c.version@ == v.version@
    &&& opt_text(c.released_at) == opt_text(v.released_at)
    &&& c.size_bytes == v.size_bytes
    &&& opt_text(c.description) == opt_text(v.description)
    &&& c.source@ == "local"@
}

/// Whether a community entry is the one an archive entry gives (see [`entry_artist`] and
/// [`is_local_version`]), with the icon asset, notes and countries given, stamped `now`.
pub open spec fn is_entry_of(
    d: CommunityDelistedAppDetail,
    app: ArchiveApp,
    artist_name: Option<Seq<char>>,
    icon_asset: Option<Seq<char>>,
    notes: Seq<Seq<char>>,
    countries: Seq<Seq<char>>,
    now: Seq<char>,
) -> bool {
    &&& entry_fields_of(d, app, artist_name, icon_asset, notes, countries, now)
    &&& d.versions@.len() == app.versions@.len()
    &&& forall|i: int| 0 <= i < d.versions@.len() ==> is_local_version(#[trigger] d.versions@[i], app.versions@[i])
}

/// Whether the fields of a community entry other than its versions are those an archive
/// entry gives (see [`is_entry_of`]).
pub open spec fn entry_fields_of(
    d: CommunityDelistedAppDetail,
    app: ArchiveApp,
    artist_name: Option<Seq<char>>,
    icon_asset: Option<Seq<char>>,
    notes: Seq<Seq<char>>,
    countries: Seq<Seq<char>>,
    now: Seq<char>,
) -> bool {
    &&& d.id@ == app.id@
    &&& d.name@ == app.name@
    &&& opt_text(d.bundle_id) == opt_text(app.bundle_id)
    &&& opt_text(d.artist_name) == entry_artist(artist_name, app.added_by@)
    &&& opt_text(d.icon_asset) == icon_asset
    &&& d.icon_url is None
    &&& d.delisted
    &&& texts(d.notes@) == notes
    &&& texts(d.countries@) == countries
    &&& d.updated_at@ == now
}

fn copy_opt(o: &Option<String>) -> (r: Option<String>)
    ensures
        opt_text(r) == opt_text(*o),
{
    match o {
        Some(v) => Some(v.clone()),
        None => None,
    }
}

/// The community entry an archive entry gives (see [`is_entry_of`]); `now` is the time of
/// writing it.
pub fn entry_from_archive(
    app: &ArchiveApp,
    artist_name: Option<String>,
    icon_asset: Option<String>,
    notes: Vec<String>,
    countries: Vec<String>,
    now: String,
) -> (d: CommunityDelistedAppDetail)
    ensures
        is_entry_of(d, *app, opt_text(artist_name), opt_text(icon_asset), texts(notes@), texts(countries@), now@),
{
    let artist = match artist_name {
        Some(a) => Some(a),
        None => if !app.added_by.as_str().is_empty() && !crate::apple::same_text(app.added_by.as_str(), "user") {
            Some(app.added_by.clone())
        } else {
            None
        },
    };
    let mut versions: Vec<CommunityVersion> = Vec::new();
    let mut i: usize = 0;
    while i < app.versions.len()
        invariant
            i <= app.versions@.len(),
            versions@.len() == i,
            forall|k: int| 0 <= k < i ==> is_local_version(#[trigger] versions@[k], app.versions@[k]),
        decreases app.versions@.len() - i,
    {
        let v = &app.versions[i];
        versions.push(CommunityVersion {
            version_id: v.version_id.clone(),
            version: v.version.clone(),
            released_at: copy_opt(&v.released_at),
            size_bytes: v.size_bytes,
            description: copy_opt(&v.description),
            source: "local".to_owned(),
        });
        i = i + 1;
    }
    CommunityDelistedAppDetail {
        id: app.id.clone(),
        name: app.name.clone(),
        bundle_id: copy_opt(&app.bundle_id),
        artist_name: artist,
        icon_asset,
        icon_url: None,
        delisted: true,
        notes,
        countries,
        versions,
        updated_at: now,
    }
}

/// Whether an archive entry is the one a candidate gives: its id, name, icon, bundle id,
/// artist and versions, delisted, added at its last download date (else `now`) by
/// `local-download-records`, with no icon copies.
pub open spec fn is_archive_of(a: ArchiveApp, c: CandidateView, now: Seq<char>) -> bool {
    &&& a.id@ == c.id
    &&& a.name@ == c.name
    &&& opt_text(a.icon_url) == c.icon_url
    &&& a.icon_bak_url is None
    &&& a.icon_base64 is None
    &&& a.icon_content_type is None
    &&& opt_text(a.bundle_id) == c.bundle_id
    &&& opt_text(a.artist_name) == c.artist_name
    &&& version_views(a.versions@) == c.versions
    &&& a.delisted
    &&& a.added_at@ == match c.last_download_date {
        Some(d) => d,
        None => now,
    }
    &&& a.added_by@ == "local-download-records"@
}

fn copy_versions(vs: &Vec<ArchiveVersion>) -> (r: Vec<ArchiveVersion>)
    ensures
        version_views(r@) == version_views(vs@),
{
    let mut out: Vec<ArchiveVersion> = Vec::new();
    let mut i: usize = 0;
    while i < vs.len()
        invariant
            i <= vs@.len(),
            out@.len() == i,
            forall|k: int| 0 <= k < i ==> (#[trigger] out@[k])@ == vs@[k]@,
        decreases vs@.len() - i,
    {
        let v = &vs[i];
        out.push(ArchiveVersion {
            version_id: v.version_id.clone(),
            version: v.version.clone(),
            description: copy_opt(&v.description),
            released_at: copy_opt(&v.released_at),
            size_bytes: v.size_bytes,
        });
        i = i + 1;
    }
    assert(version_views(out@) =~= version_views(vs@));
    out
}

/// The archive entry a candidate gives (see [`is_archive_of`]).
pub fn archive_app_from_candidate(c: &LocalDelistedCandidate, now: String) -> (a: ArchiveApp)
    ensures
        is_archive_of(a, c@, now@),
{
    ArchiveApp {
        id: c.id.clone(),
        name: c.name.clone(),
        icon_url: copy_opt(&c.icon_url),
        icon_bak_url: None,
        icon_base64: None,
        icon_content_type: None,
        bundle_id: copy_opt(&c.bundle_id),
        artist_name: copy_opt(&c.artist_name),
        versions: copy_versions(&c.versions),
        delisted: true,
        added_at: match &c.last_download_date {
            Some(d) => d.clone(),
            None => now,
        },
        added_by: "local-download-records".to_owned(),
    }
}

/// `<text> (<id>)`: an app's name and id as the pull request texts show them.
pub open spec fn named_app(name: Seq<char>, id: Seq<char>) -> Seq<char> {
    name + " ("@ + id + ")"@
}

fn app_label(buf: &mut Vec<char>, name: &str, id: &str)
    ensures
        final(buf)@ == old(buf)@ + named_app(name@, id@),
{
    push_str(buf, name);
    push_str(buf, " (");
    push_str(buf, id);
    push_str(buf, ")");
}

fn labelled(head: &str, name: &str, id: &str) -> (r: String)
    ensures
        r@ == head@ + named_app(name@, id@),
{
    let mut buf: Vec<char> = Vec::new();
    push_str(&mut buf, head);
    app_label(&mut buf, name, id);
    string_from_chars(buf.as_slice())
}

/// The commit message that adds an app's entry: `Add delisted app: <name> (<id>)`.
pub fn entry_commit_message(d: &CommunityDelistedAppDetail) -> (r: String)
    ensures
        r@ == "Add delisted app: "@ + named_app(d.name@, d.id@),
{
    labelled("Add delisted app: ", d.name.as_str(), d.id.as_str())
}

/// The commit message that adds an app's icon: `Add icon for <name> (<id>)`.
pub fn icon_commit_message(d: &CommunityDelistedAppDetail) -> (r: String)
    ensures
        r@ == "Add icon for "@ + named_app(d.name@, d.id@),
{
    labelled("Add icon for ", d.name.as_str(), d.id.as_str())
}

/// The app id of a pull request comes back from its title: for a non-empty id of ASCII
/// digits and an app name without a parenthesised run of digits, the title
/// `feat: add delisted app <name> (<id>)` gives back the id (see
/// [`crate::naming::spec_pr_app_id`]).
pub proof fn lemma_pr_title_round_trip(name: Seq<char>, id: Seq<char>)
    requires
        id.len() > 0,
        forall|i: int| 0 <= i < id.len() ==> '0' <= #[trigger] id[i] <= '9',
        crate::naming::spec_pr_app_id(name) is None,
    ensures
        crate::naming::spec_pr_app_id("feat: add delisted app "@ + named_app(name, id)) == Some(id),
{
    reveal_strlit("feat: add delisted app ");
    reveal_strlit(" (");
    reveal_strlit(")");
    let pre = "feat: add delisted app "@;
    let t = pre + named_app(name, id);
    let off = pre.len() as int;
    let nl = name.len() as int;
    let open_at = off + nl + 1;
    let close_at = open_at + 1 + id.len();
    assert(t.len() == close_at + 1);
    assert(t.subrange(off, off + nl) =~= name);
    assert(t[off + nl] == ' ');
    assert(t[open_at] == '(');
    assert(t[close_at] == ')');
    assert forall|i: int| 0 <= i < id.len() implies t[open_at + 1 + i] == id[i] by {}
    crate::naming::lemma_pr_app_id_none(name, 0);
    assert forall|p: int| 0 <= p < open_at implies #[trigger] crate::naming::digits_in_parens_at(t, p) is None by {
        if p < off {
            assert(t[p] == pre[p]);
        } else if p < off + nl {
            let j = p - off;
            assert(crate::naming::digits_in_parens_at(name, j) is None);
            crate::naming::lemma_run_embedded(t, name, off, j + 1);
            crate::naming::lemma_run_bounds(name, j + 1);
            assert(t[p] == name[j]);
            let q = crate::naming::digit_run_end(name, j + 1);
            if q < nl {
                assert(t[off + q] == name[q]);
            }
        }
    }
    crate::naming::lemma_pr_app_id_skip(t, 0, open_at);
    crate::naming::lemma_run_of_digits(t, open_at + 1, id.len() as int);
    assert(crate::naming::digits_in_parens_at(t, open_at) == Some(close_at));
    assert(t.subrange(open_at + 1, close_at) =~= id);
}

/// The title of the pull request: `feat: add delisted app <name> (<id>)`.
pub fn pull_request_title(d: &CommunityDelistedAppDetail) -> (r: String)
    ensures
        r@ == "feat: add delisted app "@ + named_app(d.name@, d.id@),
{
    labelled("feat: add delisted app ", d.name.as_str(), d.id.as_str())
}

/// A version's line in the pull request: `- <version>`, and ` (<size> bytes)` when the
/// size is known.
pub open spec fn version_line(v: CommunityVersion) -> Seq<char> {
    "- "@ + v.version@ + match v.size_bytes {
        Some(n) => " ("@ + spec_decimal_signed(n as int) + " bytes)"@,
        None => Seq::empty(),
    }
}

/// The body of the pull request: a summary (name and id, bundle id or `unknown`, number of
/// versions, where the entry came from), the notes when there are any, and one line per
/// version (see [`version_line`]).
pub open spec fn spec_pull_request_body(d: CommunityDelistedAppDetail, source: Seq<char>) -> Seq<char> {
    let notes = if d.notes@.len() == 0 {
        Seq::empty()
    } else {
        "\n\n## Notes\n"@ + spec_join(texts(d.notes@), "\n"@)
    };
    let lines = Seq::new(d.versions@.len(), |i: int| version_line(d.versions@[i]));
    "## Summary\n\n- **App**: "@ + named_app(d.name@, d.id@) + "\n- **Bundle ID**: "@ + match opt_text(d.bundle_id) {
        Some(b) => b,
        None => "unknown"@,
    } + "\n- **Versions**: "@ + spec_decimal(d.versions@.len()) + "\n- **Source**: "@ + source + notes + "\n\n## Versions\n"@
        + spec_join(lines, "\n"@)
}

fn version_line_of(v: &CommunityVersion) -> (r: String)
    ensures
        r@ == version_line(*v),
{
    let mut buf: Vec<char> = Vec::new();
    push_str(&mut buf, "- ");
    push_str(&mut buf, v.version.as_str());
    let ghost mid = buf@;
    match v.size_bytes {
        Some(n) => {
            push_str(&mut buf, " (");
            let digits = decimal_signed(n);
            crate::text::push_chars(&mut buf, digits.as_slice());
            push_str(&mut buf, " bytes)");
        },
        None => {
            assert(buf@ =~= mid + Seq::<char>::empty());
        },
    }
    string_from_chars(buf.as_slice())
}

/// The body of the pull request (see [`spec_pull_request_body`]).
pub fn pull_request_body(d: &CommunityDelistedAppDetail, source: &str) -> (r: String)
    ensures
        r@ == spec_pull_request_body(*d, source@),
{
    let mut lines: Vec<String> = Vec::new();
    let mut i: usize = 0;
    while i < d.versions.len()
        invariant
            i <= d.versions@.len(),
            lines@.len() == i,
            forall|k: int| 0 <= k < i ==> (#[trigger] lines@[k])@ == version_line(d.versions@[k]),
        decreases d.versions@.len() - i,
    {
        lines.push(version_line_of(&d.versions[i]));
        i = i + 1;
    }
    assert(lines.deep_view() =~= Seq::new(d.versions@.len(), |k: int| version_line(d.versions@[k])));
    let mut buf: Vec<char> = Vec::new();
    push_str(&mut buf, "## Summary\n\n- **App**: ");
    app_label(&mut buf, d.name.as_str(), d.id.as_str());
    push_str(&mut buf, "\n- **Bundle ID**: ");
    match &d.bundle_id {
        Some(b) => push_str(&mut buf, b.as_str()),
        None => push_str(&mut buf, "unknown"),
    }
    push_str(&mut buf, "\n- **Versions**: ");
    let count = decimal(d.versions.len() as u64);
    crate::text::push_chars(&mut buf, count.as_slice());
    push_str(&mut buf, "\n- **Source**: ");
    push_str(&mut buf, source);
    let ghost before_notes = buf@;
    if d.notes.len() == 0 {
        assert(buf@ =~= before_notes + Seq::<char>::empty());
    } else {
        push_str(&mut buf, "\n\n## Notes\n");
        assert(d.notes.deep_view() =~= texts(d.notes@));
        let joined = crate::text::join_strings(&d.notes, "\n");
        push_str(&mut buf, joined.as_str());
    }
    push_str(&mut buf, "\n\n## Versions\n");
    let joined_lines = crate::text::join_strings(&lines, "\n");
    push_str(&mut buf, joined_lines.as_str());
    string_from_chars(buf.as_slice())
}

/// The warnings about an entry being prepared: no bundle id, no artist, no versions or no
/// version with a size, and no icon path.
pub open spec fn spec_entry_warnings(d: CommunityDelistedAppDetail, has_icon_path: bool) -> Seq<Seq<char>> {
    (if d.bundle_id is None { seq!["缺少 bundle_id，建议手动补充"@] } else { Seq::empty() })
        + (if d.artist_name is None { seq!["缺少 artist_name（开发者名称）"@] } else { Seq::empty() })
        + (if d.versions@.len() == 0 {
        seq!["没有版本信息"@]
    } else if forall|i: int| 0 <= i < d.versions@.len() ==> (#[trigger] d.versions@[i]).size_bytes is None {
        seq!["所有版本均无 size_bytes"@]
    } else {
        Seq::empty()
    }) + (if !has_icon_path { seq!["无法构建 icon 路径"@] } else { Seq::empty() })
}

/// The warnings about an entry being prepared (see [`spec_entry_warnings`]).
pub fn entry_warnings(d: &CommunityDelistedAppDetail, has_icon_path: bool) -> (r: Vec<String>)
    ensures
        texts(r@) == spec_entry_warnings(*d, has_icon_path),
{
    let mut out: Vec<String> = Vec::new();
    let ghost w0 = texts(out@);
    if d.bundle_id.is_none() {
        out.push("缺少 bundle_id，建议手动补充".to_owned());
    }
    let ghost w1 = texts(out@);
    assert(w1 =~= w0 + (if d.bundle_id is None { seq!["缺少 bundle_id，建议手动补充"@] } else { Seq::<Seq<char>>::empty() }));
    if d.artist_name.is_none() {
        out.push("缺少 artist_name（开发者名称）".to_owned());
    }
    let ghost w2 = texts(out@);
    assert(w2 =~= w1 + (if d.artist_name is None { seq!["缺少 artist_name（开发者名称）"@] } else { Seq::<Seq<char>>::empty() }));
    if d.versions.len() == 0 {
        out.push("没有版本信息".to_owned());
        assert(texts(out@) =~= w2 + seq!["没有版本信息"@]);
    } else {
        let mut all_missing = true;
        let mut i: usize = 0;
        while i < d.versions.len()
            invariant
                i <= d.versions@.len(),
                all_missing == forall|k: int| 0 <= k < i ==> (#[trigger] d.versions@[k]).size_bytes is None,
            decreases d.versions@.len() - i,
        {
            if d.versions[i].size_bytes.is_some() {
                all_missing = false;
            }
            i = i + 1;
        }
        if all_missing {
            out.push("所有版本均无 size_bytes".to_owned());
            assert(texts(out@) =~= w2 + seq!["所有版本均无 size_bytes"@]);
        } else {
            assert(texts(out@) =~= w2 + Seq::<Seq<char>>::empty());
        }
    }
    let ghost w3 = texts(out@);
    if !has_icon_path {
        out.push("无法构建 icon 路径".to_owned());
        assert(texts(out@) =~= w3 + seq!["无法构建 icon 路径"@]);
    } else {
        assert(texts(out@) =~= w3 + Seq::<Seq<char>>::empty());
    }
    out
}

/// Where the icon of an entry being prepared comes from.
#[derive(Debug, Clone)]
pub enum IconSource {
    /// An address to fetch the image from.
    Fetch(String),
    /// A `data:` address, used as it is.
    Inline(String),
    /// An address of another kind, not used.
    Unused,
    /// No address; the warning for that.
    Missing(String),
}

/// Where an entry's icon comes from: an address starting with `http` is fetched, one
/// starting with `data:` used as it is, any other left unused; without one, the warning
/// `缺少图标 URL`.
pub fn icon_source(icon_url: Option<&str>) -> (r: IconSource)
    ensures
        match icon_url {
            None => r matches IconSource::Missing(w) && w@ == "缺少图标 URL"@,
            Some(u) => if seq_starts_with(u@, "http"@) {
                r matches IconSource::Fetch(f) && f@ == u@
            } else if seq_starts_with(u@, "data:"@) {
                r matches IconSource::Inline(f) && f@ == u@
            } else {
                r is Unused
            },
        },
{
    match icon_url {
        None => IconSource::Missing("缺少图标 URL".to_owned()),
        Some(u) => {
            let cs = chars_of(u);
            if starts_with(cs.as_slice(), chars_of("http").as_slice()) {
                IconSource::Fetch(u.to_owned())
            } else if starts_with(cs.as_slice(), chars_of("data:").as_slice()) {
                IconSource::Inline(u.to_owned())
            } else {
                IconSource::Unused
            }
        },
    }
}

/// The `data:` address of a fetched PNG icon: `data:image/png;base64,` and the bytes in
/// standard base64.
pub fn icon_data_url(bytes: &[u8]) -> (r: String)
    ensures
        r@ == "data:image/png;base64,"@ + base64_encoded(bytes@),
{
    let mut buf: Vec<char> = Vec::new();
    push_str(&mut buf, "data:image/png;base64,");
    push_str(&mut buf, encode_base64(bytes).as_str());
    string_from_chars(buf.as_slice())
}

/// The value of a community version.
pub struct CommunityVersionView {
    pub version_id: Seq<char>,
    pub version: Seq<char>,
    pub released_at: Option<Seq<char>>,
    pub size_bytes: Option<i64>,
    pub description: Option<Seq<char>>,
    pub source: Seq<char>,
}

impl View for CommunityVersion {
    type V = CommunityVersionView;

    open spec fn view(&self) -> CommunityVersionView {
        CommunityVersionView {
            version_id: self.version_id@,
            version: self.version@,
            released_at: opt_text(self.released_at),
            size_bytes: self.size_bytes,
            description: opt_text(self.description),
            source: self.source@,
        }
    }
}

/// The values of a list of community versions.
pub open spec fn community_views(vs: Seq<CommunityVersion>) -> Seq<CommunityVersionView> {
    Seq::new(vs.len(), |i: int| vs[i]@)
}

/// The entries of a version history reply that is a JSON array.
pub fn array_history(reply: &JsonNode) -> (r: Option<&Vec<JsonNode>>)
    ensures
        match *reply {
            JsonNode::Array(items) => r matches Some(v) && *v == items,
            _ => r is None,
        },
{
    match reply {
        JsonNode::Array(items) => Some(items),
        _ => None,
    }
}

/// The entries of a version history reply in an envelope: its `data` array when its
/// `code` is the integer 0.
pub fn enveloped_history(reply: &JsonNode) -> (r: Option<&Vec<JsonNode>>)
    ensures
        match (json_get(*reply, "code"@), json_get(*reply, "data"@)) {
            (Some(JsonNode::Number(n)), Some(JsonNode::Array(items))) => if number_as_i64(n) == Some(0int) {
                r matches Some(v) && *v == items
            } else {
                r is None
            },
            _ => r is None,
        },
{
    let code_is_zero = match json_member(reply, "code") {
        Some(JsonNode::Number(n)) => match n.integer {
            Some(i) => i == 0,
            None => false,
        },
        _ => false,
    };
    if !code_is_zero {
        return None;
    }
    match json_member(reply, "data") {
        Some(JsonNode::Array(items)) => Some(items),
        _ => None,
    }
}

/// The version label of a history entry: its `bundle_version` text, else empty.
pub open spec fn entry_label(item: JsonNode) -> Seq<char> {
    match json_text(json_get(item, "bundle_version"@)) {
        Some(t) => t,
        None => Seq::empty(),
    }
}

/// The community version a history entry gives: its `external_identifier` text (else
/// empty), its label, its `created_at` text, its integer `size`, no description, and the
/// source it came from.
pub open spec fn entry_version(item: JsonNode, source: Seq<char>) -> CommunityVersionView {
    CommunityVersionView {
        version_id: match json_text(json_get(item, "external_identifier"@)) {
            Some(t) => t,
            None => Seq::empty(),
        },
        version: entry_label(item),
        released_at: json_text(json_get(item, "created_at"@)),
        size_bytes: match json_get(item, "size"@) {
            Some(JsonNode::Number(n)) => match number_as_i64(n) {
                Some(v) => Some(v as i64),
                None => None,
            },
            _ => None,
        },
        description: None,
        source,
    }
}

/// Whether a version with this label is among the versions.
pub open spec fn has_label(vs: Seq<CommunityVersionView>, label: Seq<char>) -> bool {
    exists|k: int| 0 <= k < vs.len() && (#[trigger] vs[k]).version == label
}

/// The versions with a history's entries added in order, each whose label is not empty
/// and not there yet.
pub open spec fn with_history(acc: Seq<CommunityVersionView>, items: Seq<JsonNode>, source: Seq<char>) -> Seq<CommunityVersionView>
    decreases items.len(),
{
    if items.len() == 0 {
        acc
    } else {
        let prev = with_history(acc, items.drop_last(), source);
        let item = items.last();
        let label = entry_label(item);
        if label.len() == 0 || has_label(prev, label) {
            prev
        } else {
            prev.push(entry_version(item, source))
        }
    }
}

/// The local versions with the two services' histories added (see [`with_history`]),
/// `timbrd` first, then `bilin`.
pub open spec fn spec_merged_history(
    local: Seq<CommunityVersionView>,
    timbrd: Option<Seq<JsonNode>>,
    bilin: Option<Seq<JsonNode>>,
) -> Seq<CommunityVersionView> {
    let first = match timbrd {
        Some(items) => with_history(local, items, "timbrd"@),
        None => local,
    };
    match bilin {
        Some(items) => with_history(first, items, "bilin"@),
        None => first,
    }
}

/// The version key of a community version (see [`spec_version_key`]).
pub open spec fn key_of(v: CommunityVersionView) -> Seq<u32> {
    spec_version_key(v.version)
}

/// The versions with the given key, in order.
pub open spec fn with_key(vs: Seq<CommunityVersionView>, k: Seq<u32>) -> Seq<CommunityVersionView> {
    vs.filter(|v: CommunityVersionView| key_of(v) == k)
}

/// Whether the versions run from the highest version key to the lowest.
pub open spec fn newest_first(vs: Seq<CommunityVersionView>) -> bool {
    forall|i: int, j: int| 0 <= i < j < vs.len() ==> !key_less(key_of(#[trigger] vs[i]), key_of(#[trigger] vs[j]))
}

/// Whether `out` is `input` sorted stably from the highest version key to the lowest: in
/// that order, with the versions of each key as they came.
pub open spec fn sorted_newest_first(out: Seq<CommunityVersionView>, input: Seq<CommunityVersionView>) -> bool {
    &&& newest_first(out)
    &&& forall|k: Seq<u32>| #[trigger] with_key(out, k) == with_key(input, k)
}

fn copy_opt_text(o: &Option<String>) -> (r: Option<String>)
    ensures
        opt_text(r) == opt_text(*o),
{
    match o {
        Some(v) => Some(v.clone()),
        None => None,
    }
}

fn copy_community_version(v: &CommunityVersion) -> (r: CommunityVersion)
    ensures
        r@ == v@,
{
    CommunityVersion {
        version_id: v.version_id.clone(),
        version: v.version.clone(),
        released_at: copy_opt_text(&v.released_at),
        size_bytes: v.size_bytes,
        description: copy_opt_text(&v.description),
        source: v.source.clone(),
    }
}

fn labelled_in(vs: &Vec<CommunityVersion>, label: &str) -> (r: bool)
    ensures
        r == has_label(community_views(vs@), label@),
{
    let mut i: usize = 0;
    while i < vs.len()
        invariant
            i <= vs@.len(),
            forall|k: int| 0 <= k < i ==> vs@[k].version@ != label@,
        decreases vs@.len() - i,
    {
        if crate::apple::same_text(vs[i].version.as_str(), label) {
            assert(community_views(vs@)[i as int].version == label@);
            return true;
        }
        i = i + 1;
    }
    proof {
        if has_label(community_views(vs@), label@) {
            let k = choose|k: int| 0 <= k < community_views(vs@).len() && (#[trigger] community_views(vs@)[k]).version == label@;
            assert(vs@[k].version@ == label@);
        }
    }
    false
}

fn member_text_or_empty(item: &JsonNode, key: &str) -> (r: String)
    ensures
        r@ == match json_text(json_get(*item, key@)) {
            Some(t) => t,
            None => Seq::<char>::empty(),
        },
{
    match crate::json::json_member_text(item, key) {
        Some(t) => t,
        None => String::new(),
    }
}

fn version_from_entry(item: &JsonNode, source: &str) -> (r: CommunityVersion)
    ensures
        r@ == entry_version(*item, source@),
{
    let size_bytes = match json_member(item, "size") {
        Some(JsonNode::Number(n)) => match n.integer {
            Some(i) => if -9223372036854775808i128 <= i && i <= 9223372036854775807i128 {
                Some(i as i64)
            } else {
                None
            },
            None => None,
        },
        _ => None,
    };
    CommunityVersion {
        version_id: member_text_or_empty(item, "external_identifier"),
        version: member_text_or_empty(item, "bundle_version"),
        released_at: crate::json::json_member_text(item, "created_at"),
        size_bytes,
        description: None,
        source: source.to_owned(),
    }
}

fn add_history(acc: &mut Vec<CommunityVersion>, items: &Vec<JsonNode>, source: &str)
    ensures
        community_views(final(acc)@) == with_history(community_views(old(acc)@), items@, source@),
{
    let ghost start = community_views(acc@);
    let mut i: usize = 0;
    assert(items@.subrange(0, 0) =~= Seq::<JsonNode>::empty());
    while i < items.len()
        invariant
            i <= items@.len(),
            community_views(acc@) == with_history(start, items@.subrange(0, i as int), source@),
        decreases items@.len() - i,
    {
        let ghost prefix = items@.subrange(0, i as int + 1);
        assert(prefix.drop_last() =~= items@.subrange(0, i as int));
        let item = &items[i];
        let label = member_text_or_empty(item, "bundle_version");
        if !label.as_str().is_empty() && !labelled_in(acc, label.as_str()) {
            let ghost before = community_views(acc@);
            let v = version_from_entry(item, source);
            acc.push(v);
            assert(community_views(acc@) =~= before.push(entry_version(*item, source@)));
        }
        i = i + 1;
    }
    assert(items@.subrange(0, items@.len() as int) =~= items@);
}

proof fn lemma_filter_none(s: Seq<CommunityVersionView>, k: Seq<u32>)
    requires
        forall|i: int| 0 <= i < s.len() ==> key_of(#[trigger] s[i]) != k,
    ensures
        with_key(s, k) == Seq::<CommunityVersionView>::empty(),
    decreases s.len(),
{
    reveal(Seq::filter);
    if s.len() > 0 {
        lemma_filter_none(s.drop_last(), k);
    }
}

proof fn lemma_with_key_push(s: Seq<CommunityVersionView>, x: CommunityVersionView, k: Seq<u32>)
    ensures
        with_key(s.push(x), k) == (if key_of(x) == k { with_key(s, k).push(x) } else { with_key(s, k) }),
{
    reveal(Seq::filter);
    assert(s.push(x).drop_last() =~= s);
}

proof fn lemma_with_key_single(x: CommunityVersionView, k: Seq<u32>)
    ensures
        with_key(seq![x], k) == (if key_of(x) == k { seq![x] } else { Seq::<CommunityVersionView>::empty() }),
{
    reveal(Seq::filter);
    let e = Seq::<CommunityVersionView>::empty();
    assert(seq![x].drop_last() =~= e);
    assert(e.push(x) =~= seq![x]);
    assert(with_key(e, k) == e);
    lemma_with_key_push(e, x, k);
}

proof fn lemma_key_order(a: Seq<u32>, b: Seq<u32>, c: Seq<u32>)
    ensures
        key_less(a, b) ==> !key_less(b, a),
        !key_less(a, b) ==> key_less(b, a) || a == b,
        key_less(a, b) && key_less(b, c) ==> key_less(a, c),
{
    crate::versions_order::lemma_key_less_asymmetric(a, b);
    crate::versions_order::lemma_key_less_total(a, b);
    if key_less(a, b) && key_less(b, c) {
        crate::versions_order::lemma_key_less_transitive(a, b, c);
    }
}

fn insert_newest_first(out: &mut Vec<CommunityVersion>, v: CommunityVersion)
    requires
        newest_first(community_views(old(out)@)),
    ensures
        newest_first(community_views(final(out)@)),
        forall|k: Seq<u32>|
            #[trigger] with_key(community_views(final(out)@), k) == (if key_of(v@) == k {
                with_key(community_views(old(out)@), k).push(v@)
            } else {
                with_key(community_views(old(out)@), k)
            }),
{
    let ghost before = community_views(out@);
    let ghost x = v@;
    let kx = version_key(v.version.as_str());
    let mut p: usize = 0;
    while p < out.len() && !less_key(&version_key(out[p].version.as_str()), &kx)
        invariant
            p <= out@.len(),
            before == community_views(out@),
            kx@ == key_of(x),
            forall|q: int| 0 <= q < p ==> !key_less(key_of(#[trigger] before[q]), key_of(x)),
        decreases out@.len() - p,
    {
        p = p + 1;
    }
    out.insert(p, v);
    let ghost after = community_views(out@);
    assert(after =~= before.insert(p as int, x));
    proof {
        assert forall|q: int| p <= q < before.len() implies key_less(key_of(#[trigger] before[q]), key_of(x)) by {
            let d = key_of(before[p as int]);
            if q > p {
                assert(!key_less(d, key_of(before[q])));
                lemma_key_order(d, key_of(before[q]), key_of(x));
                lemma_key_order(key_of(before[q]), d, key_of(x));
            }
        }
        assert forall|i: int, j: int| 0 <= i < j < after.len() implies !key_less(
            key_of(#[trigger] after[i]),
            key_of(#[trigger] after[j]),
        ) by {
            if j < p {
                assert(after[i] == before[i] && after[j] == before[j]);
            } else if j == p {
                assert(after[i] == before[i]);
            } else if i == p {
                assert(after[j] == before[j - 1]);
                lemma_key_order(key_of(before[j - 1]), key_of(x), key_of(x));
            } else if i < p {
                assert(after[i] == before[i] && after[j] == before[j - 1]);
            } else {
                assert(after[i] == before[i - 1] && after[j] == before[j - 1]);
            }
        }
        let head = before.subrange(0, p as int);
        let tail = before.subrange(p as int, before.len() as int);
        assert(before =~= head + tail);
        assert(after =~= head + seq![x] + tail);
        assert forall|k: Seq<u32>| #[trigger] with_key(after, k) == (if key_of(x) == k {
            with_key(before, k).push(x)
        } else {
            with_key(before, k)
        }) by {
            Seq::filter_distributes_over_add(head, tail, |w: CommunityVersionView| key_of(w) == k);
            Seq::filter_distributes_over_add(head + seq![x], tail, |w: CommunityVersionView| key_of(w) == k);
            Seq::filter_distributes_over_add(head, seq![x], |w: CommunityVersionView| key_of(w) == k);
            lemma_with_key_single(x, k);
            if key_of(x) == k {
                assert forall|i: int| 0 <= i < tail.len() implies key_of(#[trigger] tail[i]) != k by {
                    assert(tail[i] == before[p + i]);
                    assert(key_less(key_of(before[p + i]), key_of(x)));
                    lemma_key_order(key_of(x), key_of(x), key_of(x));
                }
                lemma_filter_none(tail, k);
                assert(with_key(head, k) + seq![x] + Seq::<CommunityVersionView>::empty() =~= (with_key(head, k) + Seq::<CommunityVersionView>::empty()).push(x));
            } else {
                assert(with_key(head, k) + Seq::<CommunityVersionView>::empty() =~= with_key(head, k));
            }
        }
    }
}

/// The versions sorted stably from the highest version key to the lowest (see
/// [`sorted_newest_first`]).
pub fn sort_newest_first(input: &Vec<CommunityVersion>) -> (r: Vec<CommunityVersion>)
    ensures
        sorted_newest_first(community_views(r@), community_views(input@)),
{
    let ghost all = community_views(input@);
    let mut out: Vec<CommunityVersion> = Vec::new();
    let mut i: usize = 0;
    assert(community_views(out@) =~= Seq::<CommunityVersionView>::empty());
    assert(all.subrange(0, 0) =~= Seq::<CommunityVersionView>::empty());
    while i < input.len()
        invariant
            i <= input@.len(),
            all == community_views(input@),
            newest_first(community_views(out@)),
            forall|k: Seq<u32>| #[trigger] with_key(community_views(out@), k) == with_key(all.subrange(0, i as int), k),
        decreases input@.len() - i,
    {
        let v = copy_community_version(&input[i]);
        let ghost x = v@;
        let ghost before = community_views(out@);
        insert_newest_first(&mut out, v);
        proof {
            assert(all.subrange(0, i as int + 1) =~= all.subrange(0, i as int).push(x));
            assert forall|k: Seq<u32>| #[trigger] with_key(community_views(out@), k) == with_key(all.subrange(0, i as int + 1), k) by {
                lemma_with_key_push(all.subrange(0, i as int), x, k);
                assert(with_key(before, k) == with_key(all.subrange(0, i as int), k));
            }
        }
        i = i + 1;
    }
    assert(all.subrange(0, input@.len() as int) =~= all);
    out
}

/// The versions of an entry being prepared: its local versions with the two services'
/// histories added (see [`spec_merged_history`]), sorted stably from the highest version
/// key to the lowest (see [`sorted_newest_first`]).
pub fn enrich_versions(
    local: &Vec<CommunityVersion>,
    timbrd: Option<&Vec<JsonNode>>,
    bilin: Option<&Vec<JsonNode>>,
) -> (r: Vec<CommunityVersion>)
    ensures
        sorted_newest_first(
            community_views(r@),
            spec_merged_history(
                community_views(local@),
                match timbrd {
                    Some(v) => Some(v@),
                    None => None,
                },
                match bilin {
                    Some(v) => Some(v@),
                    None => None,
                },
            ),
        ),
{
    let mut merged: Vec<CommunityVersion> = Vec::new();
    let mut i: usize = 0;
    while i < local.len()
        invariant
            i <= local@.len(),
            merged@.len() == i,
            forall|k: int| 0 <= k < i ==> (#[trigger] merged@[k])@ == local@[k]@,
        decreases local@.len() - i,
    {
        merged.push(copy_community_version(&local[i]));
        i = i + 1;
    }
    assert(community_views(merged@) =~= community_views(local@));
    if let Some(items) = timbrd {
        add_history(&mut merged, items, "timbrd");
    }
    if let Some(items) = bilin {
        add_history(&mut merged, items, "bilin");
    }
    sort_newest_first(&merged)
}

/// The app ids of the contributions in review: for each search result in the reply's
/// `items`, in order, the app id in its `title` text (see
/// [`crate::naming::spec_pr_app_id`]), where it has one.
pub open spec fn spec_ids_in_review(items: Seq<JsonNode>) -> Seq<Seq<char>>
    decreases items.len(),
{
    if items.len() == 0 {
        Seq::empty()
    } else {
        let prev = spec_ids_in_review(items.drop_last());
        match json_text(json_get(items.last(), "title"@)) {
            Some(t) => match crate::naming::spec_pr_app_id(t) {
                Some(id) => prev.push(id),
                None => prev,
            },
            None => prev,
        }
    }
}

/// The app ids of the contributions in review, from a search reply (see
/// [`spec_ids_in_review`]; none when the reply has no `items` array).
pub fn ids_in_review(reply: &JsonNode) -> (r: Vec<String>)
    ensures
        texts(r@) == match json_get(*reply, "items"@) {
            Some(JsonNode::Array(items)) => spec_ids_in_review(items@),
            _ => Seq::<Seq<char>>::empty(),
        },
{
    let mut out: Vec<String> = Vec::new();
    assert(texts(out@) =~= Seq::<Seq<char>>::empty());
    let items = match json_member(reply, "items") {
        Some(JsonNode::Array(items)) => items,
        _ => return out,
    };
    let mut i: usize = 0;
    assert(items@.subrange(0, 0) =~= Seq::<JsonNode>::empty());
    while i < items.len()
        invariant
            i <= items@.len(),
            texts(out@) == spec_ids_in_review(items@.subrange(0, i as int)),
        decreases items@.len() - i,
    {
        let ghost prefix = items@.subrange(0, i as int + 1);
        assert(prefix.drop_last() =~= items@.subrange(0, i as int));
        if let Some(title) = crate::json::json_member_text(&items[i], "title") {
            match crate::naming::extract_app_id_from_pr_title(title.as_str()) {
                Some(id) => {
                    let ghost before = texts(out@);
                    out.push(id);
                    assert(texts(out@) =~= before.push(out@.last()@));
                },
                None => {},
            }
        }
        i = i + 1;
    }
    assert(items@.subrange(0, items@.len() as int) =~= items@);
    out
}

/// What fetching an entry's icon gave.
#[derive(Debug, Clone)]
pub enum IconFetch {
    /// The image's bytes.
    Bytes(Vec<u8>),
    /// The answer was a success but its body could not be read.
    BodyFailed,
    /// The answer had this status (as text).
    BadStatus(String),
    /// The request failed with this error (as text).
    RequestFailed(String),
}

/// The icon of an entry being prepared and the warning about it: a fetched address gives
/// the `data:` address of the image (see [`icon_data_url`]) or a warning naming what went
/// wrong (nothing when it was not fetched); a `data:` address is used as it is; another
/// address gives nothing; no address gives the warning `缺少图标 URL`.
pub open spec fn spec_icon_outcome(icon_url: Option<Seq<char>>, fetched: Option<IconFetch>) -> (Option<Seq<char>>, Option<Seq<char>>) {
    match icon_url {
        None => (None, Some("缺少图标 URL"@)),
        Some(u) => if seq_starts_with(u, "http"@) {
            match fetched {
                Some(IconFetch::Bytes(b)) => (Some("data:image/png;base64,"@ + base64_encoded(b@)), None),
                Some(IconFetch::BodyFailed) => (None, Some("图标下载失败"@)),
                Some(IconFetch::BadStatus(st)) => (None, Some("图标下载返回 "@ + st@)),
                Some(IconFetch::RequestFailed(e)) => (None, Some("图标下载失败: "@ + e@)),
                None => (None, None),
            }
        } else if seq_starts_with(u, "data:"@) {
            (Some(u), None)
        } else {
            (None, None)
        },
    }
}

fn prefixed_text(prefix: &str, rest: &str) -> (r: String)
    ensures
        r@ == prefix@ + rest@,
{
    let mut buf: Vec<char> = Vec::new();
    push_str(&mut buf, prefix);
    push_str(&mut buf, rest);
    string_from_chars(buf.as_slice())
}

/// The icon of an entry being prepared and the warning about it (see [`spec_icon_outcome`]).
pub fn contribution_icon(icon_url: &Option<String>, fetched: Option<IconFetch>) -> (r: (Option<String>, Option<String>))
    ensures
        (opt_text(r.0), opt_text(r.1)) == spec_icon_outcome(opt_text(*icon_url), fetched),
{
    let url = match icon_url {
        Some(u) => Some(u.as_str()),
        None => None,
    };
    match icon_source(url) {
        IconSource::Missing(w) => (None, Some(w)),
        IconSource::Inline(u) => (Some(u), None),
        IconSource::Unused => (None, None),
        IconSource::Fetch(_) => match fetched {
            Some(IconFetch::Bytes(b)) => (Some(icon_data_url(b.as_slice())), None),
            Some(IconFetch::BodyFailed) => (None, Some("图标下载失败".to_owned())),
            Some(IconFetch::BadStatus(st)) => (None, Some(prefixed_text("图标下载返回 ", st.as_str()))),
            Some(IconFetch::RequestFailed(e)) => (None, Some(prefixed_text("图标下载失败: ", e.as_str()))),
            None => (None, None),
        },
    }
}

/// The reply to a request to prepare a contribution.
#[derive(Debug, Clone)]
pub struct PreparedContribution {
    pub app_id: String,
    pub source: String,
    pub github_token_configured: bool,
    pub app: CommunityDelistedAppDetail,
    pub icon_path: Option<String>,
    pub icon_data_url: Option<String>,
    pub warnings: Vec<String>,
}

/// The local versions of an archive entry as community versions (source `local`).
pub open spec fn local_version_views(vs: Seq<ArchiveVersion>) -> Seq<CommunityVersionView> {
    Seq::new(vs.len(), |i: int| CommunityVersionView {
        version_id: vs[i].version_id@,
        version: vs[i].version@,
        released_at: opt_text(vs[i].released_at),
        size_bytes: vs[i].size_bytes,
        description: opt_text(vs[i].description),
        source: "local"@,
    })
}

/// The warning as a list of at most one.
pub open spec fn opt_list(w: Option<Seq<char>>) -> Seq<Seq<char>> {
    match w {
        Some(x) => seq![x],
        None => Seq::empty(),
    }
}

/// The reply to a request to prepare a contribution for `app_id`, from the archive entry
/// found for it (and where it was found), the notes, the countries, the time, the two
/// services' version histories, whether a GitHub token is set and what fetching the icon
/// gave: the entry (see [`entry_fields_of`]) with the icon path of `app_id` and the
/// entry's artist, its local versions enriched and sorted (see [`enrich_versions`]), the
/// entry warnings (see [`spec_entry_warnings`]) followed by the icon warning, and the icon
/// (see [`spec_icon_outcome`]).
pub fn prepared_contribution(
    app_id: &str,
    app: &ArchiveApp,
    source: String,
    notes: Vec<String>,
    countries: Vec<String>,
    now: String,
    timbrd: Option<&Vec<JsonNode>>,
    bilin: Option<&Vec<JsonNode>>,
    github_token_configured: bool,
    fetched: Option<IconFetch>,
) -> (r: PreparedContribution)
    requires
        icon_prefix_cuttable(app_id@),
    ensures
        r.app_id@ == app.id@,
        r.source@ == source@,
        r.github_token_configured == github_token_configured,
        opt_text(r.icon_path) == Some(spec_icon_asset_path(app_id@)),
        entry_fields_of(r.app, *app, opt_text(app.artist_name), Some(spec_icon_asset_path(app_id@)), texts(notes@), texts(countries@), now@),
        sorted_newest_first(
            community_views(r.app.versions@),
            spec_merged_history(
                local_version_views(app.versions@),
                match timbrd {
                    Some(v) => Some(v@),
                    None => None,
                },
                match bilin {
                    Some(v) => Some(v@),
                    None => None,
                },
            ),
        ),
        texts(r.warnings@) == spec_entry_warnings(r.app, true) + opt_list(spec_icon_outcome(opt_text(app.icon_url), fetched).1),
        opt_text(r.icon_data_url) == spec_icon_outcome(opt_text(app.icon_url), fetched).0,
{
    let icon_path = icon_asset_path(app_id);
    let mut detail = entry_from_archive(app, copy_opt(&app.artist_name), Some(icon_path.clone()), notes, countries, now);
    assert(community_views(detail.versions@) =~= local_version_views(app.versions@));
    let versions = enrich_versions(&detail.versions, timbrd, bilin);
    detail.versions = versions;
    let mut warnings = entry_warnings(&detail, true);
    let (icon_data_url, icon_warning) = contribution_icon(&app.icon_url, fetched);
    let ghost before = texts(warnings@);
    match icon_warning {
        Some(w) => {
            warnings.push(w);
            assert(texts(warnings@) =~= before + opt_list(spec_icon_outcome(opt_text(app.icon_url), fetched).1));
        },
        None => {
            assert(texts(warnings@) =~= before + opt_list(spec_icon_outcome(opt_text(app.icon_url), fetched).1));
        },
    }
    PreparedContribution {
        app_id: detail.id.clone(),
        source,
        github_token_configured,
        app: detail,
        icon_path: Some(icon_path),
        icon_data_url,
        warnings,
    }
}

} // verus!
