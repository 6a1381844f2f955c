//! The signing client: turns Apple's download response into signatures and metadata and
//! writes them into an IPA.
use vstd::prelude::*;
use base64::Engine;
use crate::archive::{
    entry_count, entry_names, kept_entry_at, lemma_kept_entries, list_entries, read_entries_except, spec_entries_except,
    spec_store, store_entries, zip_contents, zip_entry_count, zip_listing,
};
use crate::bundle::{app_bundle_of, spec_app_bundle, spec_plist_named};
use crate::error::{SigError, SigErrorView};
use crate::injection::{
    ManifestTargets, PlanView, SignatureApplyResult, SignatureReplacement, Sinf, build_injection_plan, contains_string,
    lemma_plan_writes_valid, plan_view, skipped, spec_injection_plan,
};
use crate::inspection::{bundle_path, in_bundle, read_bundle_executable, read_manifest_targets, spec_info_string};
use crate::json::{
    JsonNode, json_clone, json_get, json_member, json_member_text, json_members_clone, json_same, json_text,
    members_same, number_as_i64, number_as_u64,
};
use crate::property_list::{PlistNode, encode_plist_xml, entries_inserted, entries_view, insert_entry, node_string_items, plist_xml};
use crate::json::{json_map_to_plist_dict, plist_members_form};
use crate::text::{
    chars_of, decimal, decimal_signed, opt_text, push_str, spec_decimal, spec_decimal_signed, string_from_chars, trim,
    trim_white,
};

verus! {

/// The metadata of the app being signed, as Apple's download response gives it.
#[derive(Debug, Clone)]
pub struct SignatureMetadata {
    pub bundle_display_name: Option<String>,
    pub bundle_short_version_string: Option<String>,
    pub bundle_id: Option<String>,
    pub artwork_url: Option<String>,
    pub artist_name: Option<String>,
    pub apple_id: Option<String>,
    pub user_name: Option<String>,
}

/// An IPA being signed, with the signatures and metadata to write into it.
#[derive(Debug)]
pub struct SignatureClient {
    pub archive: Vec<u8>,
    /// The `metadata` object of the download response, member by member.
    pub raw_metadata: Option<Vec<(String, JsonNode)>>,
    pub metadata: SignatureMetadata,
    pub signatures: Vec<Sinf>,
    pub email: String,
}

/// The bytes that base64 (standard alphabet, with padding) decodes the text into, or the
/// decoder's error text.
pub uninterp spec fn base64_decoded(text: Seq<char>) -> Result<Seq<u8>, Seq<char>>;

/// Decodes base64 text (standard alphabet, with padding).
///
/// Trusted: `base64::engine::general_purpose::STANDARD.decode` on the text's bytes; the
/// result depends on the text alone.  The engine requires canonical padding and no stray
/// trailing bits, so it accepts exactly the texts its `encode` writes and gives back the
/// bytes they were written from; the last two clauses state this.  The error texts are
/// left to the name.
#[verifier::external_body]
fn decode_base64(text: &String) -> (r: Result<Vec<u8>, String>)
    ensures
        match base64_decoded(text@) {
            Ok(d) => r matches Ok(v) && v@ == d,
            Err(e) => r matches Err(m) && m@ == e,
        },
        r matches Ok(v) ==> crate::apple::base64_encoded(v@) == text@,
        r is Err ==> forall|b: Seq<u8>| #[trigger] crate::apple::base64_encoded(b) != text@,
{
    base64::engine::general_purpose::STANDARD.decode(text.as_bytes()).map_err(|e| e.to_string())
}

/// Whether the bytes are valid UTF-8.
///
/// Trusted: `std::str::from_utf8(..).is_ok()`, which std documents as succeeding exactly
/// on valid UTF-8.
#[verifier::external_body]
fn is_utf8(bytes: &[u8]) -> (r: bool)
    ensures
        r == vstd::utf8::valid_utf8(bytes@),
{
    std::str::from_utf8(bytes).is_ok()
}

/// The identifier of a signature entry: an integer id in decimal, a string id as is,
/// and otherwise the entry's position in decimal.
pub open spec fn spec_sinf_id(value: JsonNode, fallback_index: nat) -> Seq<char> {
    match value {
        JsonNode::Number(n) => match number_as_i64(n) {
            Some(i) => spec_decimal_signed(i),
            None => match number_as_u64(n) {
                Some(u) => spec_decimal(u as nat),
                None => spec_decimal(fallback_index),
            },
        },
        JsonNode::String(s) => s@,
        _ => spec_decimal(fallback_index),
    }
}

/// The identifier of a signature entry (see [`spec_sinf_id`]).
pub fn normalize_sinf_id(value: &JsonNode, fallback_index: usize) -> (r: String)
    ensures
        r@ == spec_sinf_id(*value, fallback_index as nat),
{
    match value {
        JsonNode::Number(n) => match n.integer {
            Some(i) => {
                if -9223372036854775808i128 <= i && i <= 9223372036854775807i128 {
                    string_from_chars(decimal_signed(i as i64).as_slice())
                } else if 0 <= i && i <= 18446744073709551615i128 {
                    string_from_chars(decimal(i as u64).as_slice())
                } else {
                    string_from_chars(decimal(fallback_index as u64).as_slice())
                }
            },
            None => string_from_chars(decimal(fallback_index as u64).as_slice()),
        },
        JsonNode::String(s) => s.clone(),
        _ => string_from_chars(decimal(fallback_index as u64).as_slice()),
    }
}

/// A signature entry `{ "id": .., "sinf": "<base64>" }` as (id, trimmed sinf text); none
/// when `sinf` is not a string or is blank.
pub open spec fn spec_sinf_entry(value: JsonNode, fallback_index: nat) -> Option<(Seq<char>, Seq<char>)> {
    match json_text(json_get(value, "sinf"@)) {
        Some(t) => if trim_white(t).len() == 0 {
            None
        } else {
            Some((
                spec_sinf_id(
                    match json_get(value, "id"@) {
                        Some(v) => v,
                        None => JsonNode::Null,
                    },
                    fallback_index,
                ),
                trim_white(t),
            ))
        },
        None => None,
    }
}

/// The (id, sinf) text of a signature.
pub open spec fn sinf_view(s: Sinf) -> (Seq<char>, Seq<char>) {
    (s.id@, s.sinf@)
}

/// Reads one signature entry (see [`spec_sinf_entry`]).
pub fn parse_sinf_entry(value: &JsonNode, fallback_index: usize) -> (r: Option<Sinf>)
    ensures
        match spec_sinf_entry(*value, fallback_index as nat) {
            Some(v) => r matches Some(s) && sinf_view(s) == v,
            None => r is None,
        },
{
    let raw = match json_member(value, "sinf") {
        Some(JsonNode::String(s)) => s,
        _ => return None,
    };
    let sinf = trim(raw.as_str());
    if sinf.as_str().is_empty() {
        return None;
    }
    let id = match json_member(value, "id") {
        Some(v) => normalize_sinf_id(v, fallback_index),
        None => normalize_sinf_id(&JsonNode::Null, fallback_index),
    };
    Some(Sinf { id, sinf })
}

/// The signatures of a download response's `sinfs` array: its readable entries, in order,
/// each with its position as the fallback id.
pub open spec fn spec_signatures(items: Seq<JsonNode>) -> Seq<(Seq<char>, Seq<char>)>
    decreases items.len(),
{
    if items.len() == 0 {
        Seq::empty()
    } else {
        let rest = spec_signatures(items.drop_last());
        match spec_sinf_entry(items.last(), (items.len() - 1) as nat) {
            Some(v) => rest.push(v),
            None => rest,
        }
    }
}

/// The signatures that a download response carries (none without a `sinfs` array).
pub open spec fn spec_response_signatures(song: JsonNode) -> Seq<(Seq<char>, Seq<char>)> {
    match json_get(song, "sinfs"@) {
        Some(JsonNode::Array(items)) => spec_signatures(items@),
        _ => Seq::empty(),
    }
}

/// The text of `metadata.<key>` in a download response.
pub open spec fn spec_metadata_text(song: JsonNode, key: Seq<char>) -> Option<Seq<char>> {
    match json_get(song, "metadata"@) {
        Some(m) => json_text(json_get(m, key)),
        None => None,
    }
}

fn response_metadata_text(song: &JsonNode, key: &str) -> (r: Option<String>)
    ensures
        opt_text(r) == spec_metadata_text(*song, key@),
{
    match json_member(song, "metadata") {
        Some(m) => json_member_text(m, key),
        None => None,
    }
}

fn response_signatures(song: &JsonNode) -> (r: Vec<Sinf>)
    ensures
        Seq::new(r@.len(), |i: int| sinf_view(r@[i])) == spec_response_signatures(*song),
{
    let mut out: Vec<Sinf> = Vec::new();
    match json_member(song, "sinfs") {
        Some(JsonNode::Array(items)) => {
            let mut i: usize = 0;
            while i < items.len()
                invariant
                    i <= items@.len(),
                    Seq::new(out@.len(), |k: int| sinf_view(out@[k])) == spec_signatures(items@.subrange(0, i as int)),
                decreases items@.len() - i,
            {
                let ghost before = Seq::new(out@.len(), |k: int| sinf_view(out@[k]));
                assert(items@.subrange(0, i + 1).drop_last() =~= items@.subrange(0, i as int));
                match parse_sinf_entry(&items[i], i) {
                    Some(s) => {
                        out.push(s);
                        assert(Seq::new(out@.len(), |k: int| sinf_view(out@[k])) =~= before.push(sinf_view(out@[out@.len() - 1])));
                    },
                    None => {},
                }
                i = i + 1;
            }
            assert(items@.subrange(0, items@.len() as int) =~= items@);
            out
        },
        _ => {
            assert(Seq::new(out@.len(), |k: int| sinf_view(out@[k])) =~= Seq::<(Seq<char>, Seq<char>)>::empty());
            out
        },
    }
}

/// The decoded bytes of every signature text, in order; the first text that does not
/// decode gives the error.
pub open spec fn spec_decode_all(texts: Seq<Seq<char>>) -> Result<Seq<Seq<u8>>, Seq<char>>
    decreases texts.len(),
{
    if texts.len() == 0 {
        Ok(Seq::empty())
    } else {
        match spec_decode_all(texts.drop_last()) {
            Err(e) => Err(e),
            Ok(prev) => match base64_decoded(texts.last()) {
                Err(e) => Err(e),
                Ok(d) => Ok(prev.push(d)),
            },
        }
    }
}

/// The base64 texts of the signatures.
pub open spec fn sinf_texts(signatures: Seq<Sinf>) -> Seq<Seq<char>> {
    Seq::new(signatures.len(), |i: int| signatures[i].sinf@)
}

/// Decodes the base64 text of every signature (see [`spec_decode_all`]).
pub fn decode_signatures(signatures: &[Sinf]) -> (r: Result<Vec<Vec<u8>>, SigError>)
    ensures
        match spec_decode_all(sinf_texts(signatures@)) {
            Ok(ds) => r matches Ok(v) && v.deep_view() == ds,
            Err(e) => r matches Err(SigError::Base64(m)) && m@ == e,
        },
{
    let ghost texts = sinf_texts(signatures@);
    let mut out: Vec<Vec<u8>> = Vec::new();
    let mut i: usize = 0;
    while i < signatures.len()
        invariant
            i <= signatures@.len(),
            texts == sinf_texts(signatures@),
            spec_decode_all(texts.subrange(0, i as int)) matches Ok(ds) && out.deep_view() == ds,
        decreases signatures@.len() - i,
    {
        assert(texts.subrange(0, i + 1).drop_last() =~= texts.subrange(0, i as int));
        match decode_base64(&signatures[i].sinf) {
            Ok(d) => {
                let ghost before = out.deep_view();
                assert(d.deep_view() =~= d@);
                out.push(d);
                assert(out.deep_view() =~= before.push(d@));
            },
            Err(e) => {
                proof {
                    lemma_decode_all_fails(texts, i as int);
                }
                return Err(SigError::Base64(e));
            },
        }
        i = i + 1;
    }
    assert(texts.subrange(0, texts.len() as int) =~= texts);
    Ok(out)
}

proof fn lemma_decode_all_fails(texts: Seq<Seq<char>>, i: int)
    requires
        0 <= i < texts.len(),
        spec_decode_all(texts.subrange(0, i)) is Ok,
        base64_decoded(texts[i]) is Err,
    ensures
        spec_decode_all(texts) == spec_decode_all(texts.subrange(0, i + 1)),
        spec_decode_all(texts) matches Err(e) && base64_decoded(texts[i]) matches Err(f) && e == f,
    decreases texts.len() - i,
{
    assert(texts.subrange(0, i + 1).drop_last() =~= texts.subrange(0, i));
    if i + 1 < texts.len() {
        lemma_decode_all_prefix_err(texts, i + 1);
    } else {
        assert(texts.subrange(0, i + 1) =~= texts);
    }
}

proof fn lemma_decode_all_prefix_err(texts: Seq<Seq<char>>, k: int)
    requires
        0 < k <= texts.len(),
        spec_decode_all(texts.subrange(0, k)) is Err,
    ensures
        spec_decode_all(texts) == spec_decode_all(texts.subrange(0, k)),
    decreases texts.len() - k,
{
    if k == texts.len() {
        assert(texts.subrange(0, k) =~= texts);
    } else {
        assert(texts.subrange(0, k + 1).drop_last() =~= texts.subrange(0, k));
        lemma_decode_all_prefix_err(texts, k + 1);
    }
}

/// The archive reads back as exactly these entries, in order.
pub open spec fn reads_back(archive: Seq<u8>, entries: Seq<(Seq<char>, Seq<u8>)>) -> bool {
    zip_contents(archive) matches Ok(back) && back == entries
}

/// `after` reads back as the entries of `before` whose names are not replaced (see
/// [`spec_entries_except`]), in order, then the replacements, in order.
pub open spec fn replaced_reads_back(before: Seq<u8>, after: Seq<u8>, replacements: Seq<(Seq<char>, Seq<u8>)>) -> bool {
    spec_entries_except(before, entry_names(replacements)) matches Ok(kept) && reads_back(after, kept + replacements)
}

/// The archive after replacing entries, or the error: the entries whose names are not
/// replaced (a replaced entry is never read), then the replacements, stored afresh.
pub open spec fn spec_replace_outcome(archive: Seq<u8>, replacements: Seq<(Seq<char>, Seq<u8>)>) -> Result<Seq<u8>, Seq<char>> {
    match spec_entries_except(archive, entry_names(replacements)) {
        Err(e) => Err(e),
        Ok(kept) => spec_store(kept + replacements),
    }
}

/// Rewrites the archive with the entries named in `replacements` replaced (or added),
/// every entry stored uncompressed (see [`spec_replace_outcome`]).  On failure the archive
/// is left empty.
pub fn replace_zip_entries(archive: &mut Vec<u8>, replacements: &[(String, Vec<u8>)]) -> (r: Result<(), SigError>)
    ensures
        match spec_replace_outcome(old(archive)@, replacements.deep_view()) {
            Ok(out) => r is Ok && final(archive)@ == out,
            Err(e) => r matches Err(SigError::Archive(m)) && m@ == e && final(archive)@.len() == 0,
        },
        r is Ok ==> replaced_reads_back(old(archive)@, final(archive)@, replacements.deep_view()),
{
    let mut original: Vec<u8> = Vec::new();
    std::mem::swap(&mut original, archive);
    let mut names: Vec<String> = Vec::new();
    let mut j: usize = 0;
    while j < replacements.len()
        invariant
            j <= replacements@.len(),
            names.deep_view() == entry_names(replacements.deep_view()).subrange(0, j as int),
        decreases replacements@.len() - j,
    {
        let ghost before = names.deep_view();
        names.push(replacements[j].0.clone());
        assert(names.deep_view() =~= before.push(replacements.deep_view()[j as int].0));
        j = j + 1;
        assert(names.deep_view() =~= entry_names(replacements.deep_view()).subrange(0, j as int));
    }
    assert(entry_names(replacements.deep_view()).subrange(0, replacements@.len() as int) =~= entry_names(replacements.deep_view()));
    let mut kept = match read_entries_except(original.as_slice(), &names) {
        Ok(k) => k,
        Err(e) => return Err(SigError::Archive(e)),
    };
    let mut k: usize = 0;
    let ghost base = kept.deep_view();
    while k < replacements.len()
        invariant
            k <= replacements@.len(),
            kept.deep_view() == base + replacements.deep_view().subrange(0, k as int),
        decreases replacements@.len() - k,
    {
        let ghost before = kept.deep_view();
        kept.push((replacements[k].0.clone(), replacements[k].1.clone()));
        assert(kept.deep_view() =~= before.push(replacements.deep_view()[k as int]));
        k = k + 1;
        assert(kept.deep_view() =~= base + replacements.deep_view().subrange(0, k as int));
    }
    assert(replacements.deep_view().subrange(0, replacements@.len() as int) =~= replacements.deep_view());
    match store_entries(kept.as_slice()) {
        Ok(out) => {
            *archive = out;
            Ok(())
        },
        Err(e) => Err(SigError::Archive(e)),
    }
}

proof fn lemma_decode_all_len(texts: Seq<Seq<char>>)
    ensures
        spec_decode_all(texts) matches Ok(ds) ==> ds.len() == texts.len(),
    decreases texts.len(),
{
    if texts.len() > 0 {
        lemma_decode_all_len(texts.drop_last());
    }
}

/// Warning: no manifest, and no signature to fall back on.
pub open spec fn warn_no_manifest_no_signature() -> Seq<char> {
    "包内无 Manifest，且 Apple 下载响应未返回任何真实 sinf"@
}

/// Warning: no manifest, so the first signature goes to the main executable's `.sinf`.
pub open spec fn warn_executable_fallback() -> Seq<char> {
    "包内未找到 SC_Info/Manifest.plist，已按主 app 可执行文件回退注入首个 sinf"@
}

/// Warning: no manifest, and no executable to derive a `.sinf` path from.
pub open spec fn warn_no_manifest_no_executable() -> Seq<char> {
    "包内未找到 SC_Info/Manifest.plist，且无法从 Info.plist 推断 sinf 路径"@
}

/// The plan for `n` signatures and the app bundle of an archive: the manifest's plan
/// (see [`spec_injection_plan`]) when `SC_Info/Manifest.plist` can be read; otherwise the
/// first signature goes to `SC_Info/<CFBundleExecutable>.sinf` when the `Info.plist`
/// names an executable (skipped without signatures), and nothing is written otherwise.
pub open spec fn spec_archive_plan(archive: Seq<u8>, bundle: Seq<char>, n: nat) -> PlanView {
    match spec_plist_named(archive, in_bundle(bundle, "SC_Info/Manifest.plist"@)) {
        Some(m) => spec_injection_plan(n, node_string_items(m, "SinfPaths"@), node_string_items(m, "SinfReplicationPaths"@)),
        None => match spec_info_string(archive, bundle, "CFBundleExecutable"@) {
            Some(exe) => if n == 0 {
                skipped(warn_no_manifest_no_signature())
            } else {
                let path = "SC_Info/"@ + exe + ".sinf"@;
                (seq![path], seq![(path, 0int)], Some(warn_executable_fallback()))
            },
            None => skipped(warn_no_manifest_no_executable()),
        },
    }
}

/// The entries a plan writes: `Payload/<bundle>/<path>` with the decoded signature.
pub open spec fn spec_plan_entries(plan: PlanView, bundle: Seq<char>, decoded: Seq<Seq<u8>>) -> Seq<(Seq<char>, Seq<u8>)> {
    Seq::new(plan.1.len(), |i: int| (in_bundle(bundle, plan.1[i].0), decoded[plan.1[i].1]))
}

/// What writing the signatures does to an archive with these signature texts: the plan
/// and the new archive, or the error.  The archive is unchanged when nothing is written.
pub open spec fn spec_append_signatures(archive: Seq<u8>, texts: Seq<Seq<char>>) -> Result<(PlanView, Seq<u8>), SigErrorView> {
    match zip_listing(archive) {
        Err(e) => Err(SigErrorView::Archive(e)),
        Ok(names) => match spec_app_bundle(names) {
            None => Err(SigErrorView::NoAppBundle),
            Some(bundle) => {
                let plan = spec_archive_plan(archive, bundle, texts.len());
                if plan.0.len() == 0 {
                    Ok((plan, archive))
                } else {
                    match spec_decode_all(texts) {
                        Err(e) => Err(SigErrorView::Base64(e)),
                        Ok(decoded) => match spec_replace_outcome(archive, spec_plan_entries(plan, bundle, decoded)) {
                            Ok(out) => Ok((plan, out)),
                            Err(e) => Err(SigErrorView::Archive(e)),
                        },
                    }
                }
            },
        },
    }
}

/// `after` is what writing the signatures with these texts into `before` leaves: the same
/// archive when the plan writes nothing, otherwise an archive that reads back as the entries
/// of `before` with the plan's entries replaced or added (see [`spec_plan_entries`]).
pub open spec fn signed_reads_back(before: Seq<u8>, texts: Seq<Seq<char>>, after: Seq<u8>) -> bool {
    match zip_listing(before) {
        Err(_) => false,
        Ok(names) => match spec_app_bundle(names) {
            None => false,
            Some(bundle) => {
                let plan = spec_archive_plan(before, bundle, texts.len());
                if plan.0.len() == 0 {
                    after == before
                } else {
                    match spec_decode_all(texts) {
                        Err(_) => false,
                        Ok(decoded) => replaced_reads_back(before, after, spec_plan_entries(plan, bundle, decoded)),
                    }
                }
            },
        },
    }
}

/// The archive with `iTunesMetadata.plist` set to `content`: every other entry kept in
/// order (the old metadata is never read) and the metadata last; an archive that cannot be
/// opened is replaced by one holding only the metadata; unchanged when a kept entry cannot
/// be read or the writer fails.
pub open spec fn spec_with_metadata(archive: Seq<u8>, content: Seq<u8>) -> Seq<u8> {
    let entry = ("iTunesMetadata.plist"@, content);
    match zip_entry_count(archive) {
        Err(_) => match spec_store(seq![entry]) {
            Ok(out) => out,
            Err(_) => archive,
        },
        Ok(_) => match spec_entries_except(archive, seq!["iTunesMetadata.plist"@]) {
            Err(_) => archive,
            Ok(kept) => match spec_store(kept + seq![entry]) {
                Ok(out) => out,
                Err(_) => archive,
            },
        },
    }
}

/// The entries that writing the signatures with these texts puts into `before`: the plan's
/// entries (see [`spec_plan_entries`]); none when nothing is written.
pub open spec fn signature_writes(before: Seq<u8>, texts: Seq<Seq<char>>) -> Seq<(Seq<char>, Seq<u8>)> {
    match zip_listing(before) {
        Ok(names) => match spec_app_bundle(names) {
            Some(bundle) => {
                let plan = spec_archive_plan(before, bundle, texts.len());
                if plan.0.len() == 0 {
                    Seq::empty()
                } else {
                    match spec_decode_all(texts) {
                        Ok(decoded) => spec_plan_entries(plan, bundle, decoded),
                        Err(_) => Seq::empty(),
                    }
                }
            },
            None => Seq::empty(),
        },
        Err(_) => Seq::empty(),
    }
}

/// Whether `after` reads back as entries that account for every entry of `before` not
/// named in `skip` (see [`kept_entry_at`]) and hold every one of `written`.
pub open spec fn keeps_and_holds(before: Seq<u8>, skip: Seq<Seq<char>>, written: Seq<(Seq<char>, Seq<u8>)>, after: Seq<u8>) -> bool {
    &&& zip_contents(after) matches Ok(back)
    &&& zip_entry_count(before) matches Ok(c)
    &&& forall|i: int| 0 <= i < c ==> #[trigger] kept_entry_at(before, skip, back, i)
    &&& forall|j: int| 0 <= j < written.len() ==> back.contains(#[trigger] written[j])
}

/// Replacing keeps every entry whose name is not replaced, with its content, and holds
/// every replacement.
pub proof fn lemma_replacing_keeps(before: Seq<u8>, after: Seq<u8>, replacements: Seq<(Seq<char>, Seq<u8>)>)
    requires
        replaced_reads_back(before, after, replacements),
    ensures
        keeps_and_holds(before, entry_names(replacements), replacements, after),
{
    let c = zip_entry_count(before)->Ok_0;
    let kept = spec_entries_except(before, entry_names(replacements))->Ok_0;
    let back = kept + replacements;
    lemma_kept_entries(before, entry_names(replacements), c as int);
    assert forall|i: int| 0 <= i < c implies #[trigger] kept_entry_at(before, entry_names(replacements), back, i) by {
        assert(kept_entry_at(before, entry_names(replacements), kept, i));
        if let Ok(n) = crate::archive::zip_entry_name(before, i) {
            if !entry_names(replacements).contains(n) {
                if let Ok(d) = crate::archive::zip_entry_content(before, i) {
                    let m = choose|m: int| 0 <= m < kept.len() && kept[m] == (n, d);
                    assert(back[m] == (n, d));
                }
            }
        }
    }
    assert forall|j: int| 0 <= j < replacements.len() implies back.contains(#[trigger] replacements[j]) by {
        assert(back[kept.len() + j] == replacements[j]);
    }
}

/// Writing the signatures leaves the archive as it was when it writes nothing; otherwise it
/// keeps every entry it does not write, with its content, and holds every entry it writes.
pub proof fn lemma_signing_keeps_entries(before: Seq<u8>, texts: Seq<Seq<char>>, after: Seq<u8>)
    requires
        signed_reads_back(before, texts, after),
    ensures
        after == before || keeps_and_holds(before, entry_names(signature_writes(before, texts)), signature_writes(before, texts), after),
{
    if after != before {
        lemma_replacing_keeps(before, after, signature_writes(before, texts));
    }
}

/// Writing `iTunesMetadata.plist` keeps every other entry with its content and holds the
/// new metadata.
pub proof fn lemma_metadata_keeps_entries(before: Seq<u8>, content: Seq<u8>, after: Seq<u8>)
    requires
        metadata_reads_back(before, content, after),
        zip_entry_count(before) is Ok,
    ensures
        keeps_and_holds(before, seq!["iTunesMetadata.plist"@], seq![("iTunesMetadata.plist"@, content)], after),
{
    assert(entry_names(seq![("iTunesMetadata.plist"@, content)]) =~= seq!["iTunesMetadata.plist"@]);
    lemma_replacing_keeps(before, after, seq![("iTunesMetadata.plist"@, content)]);
}

/// `after` reads back as `before` with `iTunesMetadata.plist` set to `content`: every other
/// entry of `before`, in order, then the metadata; only the metadata when `before` cannot
/// be opened.
pub open spec fn metadata_reads_back(before: Seq<u8>, content: Seq<u8>, after: Seq<u8>) -> bool {
    let entry = ("iTunesMetadata.plist"@, content);
    match zip_entry_count(before) {
        Err(_) => reads_back(after, seq![entry]),
        Ok(_) => spec_entries_except(before, seq!["iTunesMetadata.plist"@]) matches Ok(kept) && reads_back(after, kept + seq![entry]),
    }
}

/// `after` is `before`, or `before` with some `iTunesMetadata.plist` written (see
/// [`metadata_reads_back`]).
pub open spec fn metadata_written(before: Seq<u8>, after: Seq<u8>) -> bool {
    after == before || exists|content: Seq<u8>| #![trigger metadata_reads_back(before, content, after)]
        metadata_reads_back(before, content, after)
}

/// The archive after writing a metadata dictionary: its XML text when it encodes to valid
/// UTF-8, else `None`.
pub open spec fn metadata_document(entries: Vec<(String, PlistNode)>) -> Option<Seq<u8>> {
    match plist_xml(PlistNode::Dictionary(entries)) {
        Ok(b) => if vstd::utf8::valid_utf8(b) { Some(b) } else { None },
        Err(_) => None,
    }
}

/// The entry `key: <text>` when there is a text.
pub open spec fn optional_entry(key: Seq<char>, value: Option<String>) -> Seq<(Seq<char>, PlistNode)> {
    match value {
        Some(s) => seq![(key, PlistNode::String(s))],
        None => Seq::empty(),
    }
}

/// The fallback metadata dictionary: the known fields that are set, then `apple-id` and
/// `userName`.
pub open spec fn fallback_entries(md: SignatureMetadata, email: String) -> Seq<(Seq<char>, PlistNode)> {
    optional_entry("bundleDisplayName"@, md.bundle_display_name) + optional_entry(
        "bundleShortVersionString"@,
        md.bundle_short_version_string,
    ) + optional_entry("bundleId"@, md.bundle_id) + optional_entry("artworkUrl"@, md.artwork_url) + optional_entry(
        "artistName"@,
        md.artist_name,
    ) + seq![("apple-id"@, PlistNode::String(email)), ("userName"@, PlistNode::String(email))]
}

/// Whether `d` is the metadata dictionary made from the raw metadata: each member in
/// property-list form, with `apple-id` and `userName` set to the email in key order.
pub open spec fn raw_metadata_entries(raw: Seq<(String, JsonNode)>, email: String, d: Seq<(String, PlistNode)>) -> bool {
    exists|converted: Seq<(String, PlistNode)>| #![trigger plist_members_form(raw, converted)]
        plist_members_form(raw, converted) && entries_view(d) == entries_inserted(
            entries_inserted(entries_view(converted), "apple-id"@, PlistNode::String(email)),
            "userName"@,
            PlistNode::String(email),
        )
}

/// The dictionary written from the raw metadata (see [`raw_metadata_entries`]).
pub fn raw_metadata_dictionary(raw: &Vec<(String, JsonNode)>, email: &String) -> (d: Vec<(String, PlistNode)>)
    ensures
        raw_metadata_entries(raw@, *email, d@),
{
    let mut d = json_map_to_plist_dict(raw);
    let ghost converted = d@;
    insert_entry(&mut d, string_from_chars(chars_of("apple-id").as_slice()), PlistNode::String(email.clone()));
    insert_entry(&mut d, string_from_chars(chars_of("userName").as_slice()), PlistNode::String(email.clone()));
    assert(plist_members_form(raw@, converted));
    d
}

fn push_optional(d: &mut Vec<(String, PlistNode)>, key: &str, value: &Option<String>)
    ensures
        entries_view(final(d)@) == entries_view(old(d)@) + optional_entry(key@, *value),
{
    match value {
        Some(v) => {
            let k = key.to_owned();
            let ghost before = entries_view(d@);
            d.push((k, PlistNode::String(v.clone())));
            assert(entries_view(d@) =~= before + optional_entry(key@, *value));
        },
        None => {
            assert(entries_view(d@) =~= entries_view(d@) + optional_entry(key@, *value));
        },
    }
}

/// The fallback metadata dictionary (see [`fallback_entries`]).
pub fn fallback_dictionary(md: &SignatureMetadata, email: &String) -> (d: Vec<(String, PlistNode)>)
    ensures
        entries_view(d@) == fallback_entries(*md, *email),
{
    let mut d: Vec<(String, PlistNode)> = Vec::new();
    assert(entries_view(d@) =~= Seq::<(Seq<char>, PlistNode)>::empty());
    push_optional(&mut d, "bundleDisplayName", &md.bundle_display_name);
    push_optional(&mut d, "bundleShortVersionString", &md.bundle_short_version_string);
    push_optional(&mut d, "bundleId", &md.bundle_id);
    push_optional(&mut d, "artworkUrl", &md.artwork_url);
    push_optional(&mut d, "artistName", &md.artist_name);
    let ghost before = entries_view(d@);
    d.push(("apple-id".to_owned(), PlistNode::String(email.clone())));
    d.push(("userName".to_owned(), PlistNode::String(email.clone())));
    assert(entries_view(d@) =~= before + seq![("apple-id"@, PlistNode::String(*email)), ("userName"@, PlistNode::String(*email))]);
    d
}

/// The XML text of a metadata dictionary when it encodes to valid UTF-8.
fn encode_metadata(d: Vec<(String, PlistNode)>) -> (r: Option<Vec<u8>>)
    ensures
        match metadata_document(d) {
            Some(b) => r matches Some(v) && v@ == b,
            None => r is None,
        },
{
    let node = PlistNode::Dictionary(d);
    match encode_plist_xml(&node) {
        Ok(bytes) => if is_utf8(bytes.as_slice()) { Some(bytes) } else { None },
        Err(_) => None,
    }
}

/// Whether a client holds what a download response (`songList[0]`) and an Apple ID give:
/// the raw `metadata` object, the known metadata fields, the Apple ID and the signatures.
pub open spec fn client_from_response(c: SignatureClient, song: JsonNode, email: Seq<char>) -> bool {
    &&& c.email@ == email
    &&& match json_get(song, "metadata"@) {
        Some(JsonNode::Object(m)) => c.raw_metadata matches Some(raw) && members_same(m@, raw@),
        _ => c.raw_metadata is None,
    }
    &&& opt_text(c.metadata.bundle_display_name) == spec_metadata_text(song, "bundleDisplayName"@)
    &&& opt_text(c.metadata.bundle_short_version_string) == spec_metadata_text(song, "bundleShortVersionString"@)
    &&& opt_text(c.metadata.bundle_id) == spec_metadata_text(song, "bundleId"@)
    &&& opt_text(c.metadata.artwork_url) == (match spec_metadata_text(song, "artworkUrl60"@) {
        Some(u) => Some(u),
        None => match spec_metadata_text(song, "artworkUrl512"@) {
            Some(u) => Some(u),
            None => spec_metadata_text(song, "artworkUrl100"@),
        },
    })
    &&& opt_text(c.metadata.artist_name) == spec_metadata_text(song, "artistName"@)
    &&& opt_text(c.metadata.apple_id) == Some(email)
    &&& opt_text(c.metadata.user_name) == Some(email)
    &&& Seq::new(c.signatures@.len(), |i: int| sinf_view(c.signatures@[i])) == spec_response_signatures(song)
}

/// The base64 texts of the signatures of a download response.
pub open spec fn response_texts(song: JsonNode) -> Seq<Seq<char>> {
    Seq::new(spec_response_signatures(song).len(), |i: int| spec_response_signatures(song)[i].1)
}

/// Whether `after` is the archive of `before` once `iTunesMetadata.plist` is written: the
/// raw metadata of the download response with `apple-id` and `userName` set to the email
/// (see [`raw_metadata_entries`]); the fallback dictionary when there is no raw metadata or
/// it cannot be encoded (see [`fallback_entries`]); the archive unchanged when neither
/// encodes.
pub open spec fn metadata_appended(before: SignatureClient, after: Seq<u8>) -> bool {
    let fallback = exists|f: Vec<(String, PlistNode)>| #![trigger metadata_document(f)]
        entries_view(f@) == fallback_entries(before.metadata, before.email) && after == match metadata_document(f) {
            Some(b) => spec_with_metadata(before.archive@, b),
            None => before.archive@,
        };
    match before.raw_metadata {
        Some(raw) => exists|d: Vec<(String, PlistNode)>| #![trigger metadata_document(d)]
            raw_metadata_entries(raw@, before.email, d@) && match metadata_document(d) {
                Some(b) => after == spec_with_metadata(before.archive@, b),
                None => fallback,
            },
        None => fallback,
    }
}

/// The signature texts of a client made from a download response are those of the
/// response.
pub proof fn lemma_client_texts(c: SignatureClient, song: JsonNode, email: Seq<char>)
    requires
        client_from_response(c, song, email),
    ensures
        sinf_texts(c.signatures@) == response_texts(song),
{
    let views = Seq::new(c.signatures@.len(), |i: int| sinf_view(c.signatures@[i]));
    assert forall|i: int| 0 <= i < c.signatures@.len() implies #[trigger] sinf_texts(c.signatures@)[i] == response_texts(song)[i] by {
        assert(views[i] == spec_response_signatures(song)[i]);
    }
    assert(sinf_texts(c.signatures@) =~= response_texts(song));
}

impl SignatureClient {
    /// A client for a download response (`songList[0]`) and an Apple ID, with no archive
    /// yet.  Never fails.
    pub fn new(song_list_0: &JsonNode, email: &str) -> (r: Result<Self, SigError>)
        ensures
            r matches Ok(c) && c.archive@.len() == 0 && client_from_response(c, *song_list_0, email@),
    {
        let raw_metadata = match json_member(song_list_0, "metadata") {
            Some(JsonNode::Object(m)) => Some(json_members_clone(m)),
            _ => None,
        };
        let artwork_url = match response_metadata_text(song_list_0, "artworkUrl60") {
            Some(u) => Some(u),
            None => match response_metadata_text(song_list_0, "artworkUrl512") {
                Some(u) => Some(u),
                None => response_metadata_text(song_list_0, "artworkUrl100"),
            },
        };
        let metadata = SignatureMetadata {
            bundle_display_name: response_metadata_text(song_list_0, "bundleDisplayName"),
            bundle_short_version_string: response_metadata_text(song_list_0, "bundleShortVersionString"),
            bundle_id: response_metadata_text(song_list_0, "bundleId"),
            artwork_url,
            artist_name: response_metadata_text(song_list_0, "artistName"),
            apple_id: Some(email.to_owned()),
            user_name: Some(email.to_owned()),
        };
        let signatures = response_signatures(song_list_0);
        Ok(SignatureClient { archive: Vec::new(), raw_metadata, metadata, signatures, email: email.to_owned() })
    }

    /// A client for an IPA's bytes, a download response and an Apple ID.  Never fails.
    pub fn from_bytes(ipa_bytes: Vec<u8>, song_list_0: &JsonNode, email: &str) -> (r: Result<Self, SigError>)
        ensures
            r matches Ok(c) && c.archive@ == ipa_bytes@ && client_from_response(c, *song_list_0, email@),
    {
        let mut client = match Self::new(song_list_0, email) {
            Ok(c) => c,
            Err(e) => return Err(e),
        };
        client.archive = ipa_bytes;
        Ok(client)
    }

    /// Writes the signatures into the archive where the plan says (see
    /// [`spec_append_signatures`]) and returns the plan; other fields stay as they are.
    pub fn append_signatures(&mut self) -> (r: Result<SignatureApplyResult, SigError>)
        ensures
            final(self).signatures == old(self).signatures,
            final(self).email == old(self).email,
            final(self).raw_metadata == old(self).raw_metadata,
            final(self).metadata == old(self).metadata,
            match spec_append_signatures(old(self).archive@, sinf_texts(old(self).signatures@)) {
                Ok((plan, out)) => r matches Ok(res) && plan_view(res) == plan && final(self).archive@ == out,
                Err(e) => r matches Err(err) && err@ == e && (final(self).archive@ == old(self).archive@
                    || (e is Archive && final(self).archive@.len() == 0)),
            },
            r is Ok ==> signed_reads_back(old(self).archive@, sinf_texts(old(self).signatures@), final(self).archive@),
    {
        let ghost texts = sinf_texts(self.signatures@);
        let names = match list_entries(self.archive.as_slice()) {
            Ok(n) => n,
            Err(e) => return Err(SigError::Archive(e)),
        };
        let app_bundle_name = match app_bundle_of(&names) {
            Some(b) => b,
            None => return Err(SigError::NoAppBundle),
        };
        let n = self.signatures.len();
        let ghost plan = spec_archive_plan(self.archive@, app_bundle_name@, n as nat);
        let apply_result = match read_manifest_targets(self.archive.as_slice(), &app_bundle_name) {
            Ok(Some(targets)) => {
                proof {
                    lemma_plan_writes_valid(n as nat, targets.sinf_paths.deep_view(), targets.sinf_replication_paths.deep_view());
                }
                match build_injection_plan(self.signatures.as_slice(), &targets) {
                    Ok(p) => p,
                    Err(e) => return Err(e),
                }
            },
            _ => match read_bundle_executable(self.archive.as_slice(), &app_bundle_name) {
                Ok(Some(exe)) => {
                    if n == 0 {
                        crate::injection::skipped_result(string_from_chars(chars_of("包内无 Manifest，且 Apple 下载响应未返回任何真实 sinf").as_slice()))
                    } else {
                        let mut buf: Vec<char> = Vec::new();
                        push_str(&mut buf, "SC_Info/");
                        push_str(&mut buf, exe.as_str());
                        push_str(&mut buf, ".sinf");
                        let path = string_from_chars(buf.as_slice());
                        let mut applied_paths: Vec<String> = Vec::new();
                        applied_paths.push(path.clone());
                        let mut replacements: Vec<SignatureReplacement> = Vec::new();
                        replacements.push(SignatureReplacement { path, signature_index: 0 });
                        let warning = string_from_chars(chars_of("包内未找到 SC_Info/Manifest.plist，已按主 app 可执行文件回退注入首个 sinf").as_slice());
                        let res = SignatureApplyResult { applied_paths, replacements, warning: Some(warning) };
                        assert(plan_view(res).0 =~= plan.0);
                        assert(plan_view(res).1 =~= plan.1);
                        res
                    }
                },
                _ => crate::injection::skipped_result(string_from_chars(chars_of("包内未找到 SC_Info/Manifest.plist，且无法从 Info.plist 推断 sinf 路径").as_slice())),
            },
        };
        assert(plan_view(apply_result) == plan);
        if apply_result.applied_paths.len() == 0 {
            return Ok(apply_result);
        }
        let decoded = match decode_signatures(self.signatures.as_slice()) {
            Ok(d) => d,
            Err(e) => return Err(e),
        };
        proof {
            lemma_decode_all_len(texts);
        }
        let ghost entries = spec_plan_entries(plan, app_bundle_name@, decoded.deep_view());
        let mut writes: Vec<(String, Vec<u8>)> = Vec::new();
        let mut i: usize = 0;
        while i < apply_result.replacements.len()
            invariant
                i <= apply_result.replacements@.len(),
                plan_view(apply_result) == plan,
                decoded@.len() == n,
                forall|k: int| 0 <= k < plan.1.len() ==> 0 <= (#[trigger] plan.1[k]).1 < n,
                entries == spec_plan_entries(plan, app_bundle_name@, decoded.deep_view()),
                writes.deep_view() == entries.subrange(0, i as int),
            decreases apply_result.replacements@.len() - i,
        {
            let replacement = &apply_result.replacements[i];
            assert(plan.1[i as int] == (replacement.path@, replacement.signature_index as int));
            let idx = replacement.signature_index;
            let path = bundle_path(&app_bundle_name, replacement.path.as_str());
            let data = decoded[idx].clone();
            let ghost before = writes.deep_view();
            writes.push((path, data));
            assert(data.deep_view() =~= decoded.deep_view()[idx as int]);
            assert(writes.deep_view() =~= before.push(entries[i as int]));
            i = i + 1;
            assert(writes.deep_view() =~= entries.subrange(0, i as int));
        }
        assert(entries.subrange(0, entries.len() as int) =~= entries);
        match replace_zip_entries(&mut self.archive, writes.as_slice()) {
            Ok(()) => Ok(apply_result),
            Err(e) => Err(e),
        }
    }

    /// Sets `iTunesMetadata.plist` in the archive (see [`spec_with_metadata`]).
    fn write_metadata_to_archive(&mut self, metadata_content: &[u8])
        ensures
            final(self).archive@ == spec_with_metadata(old(self).archive@, metadata_content@),
            final(self).archive@ == old(self).archive@ || metadata_reads_back(old(self).archive@, metadata_content@, final(self).archive@),
            final(self).signatures == old(self).signatures,
            final(self).email == old(self).email,
            final(self).raw_metadata == old(self).raw_metadata,
            final(self).metadata == old(self).metadata,
    {
        let name = string_from_chars(chars_of("iTunesMetadata.plist").as_slice());
        let mut content: Vec<u8> = Vec::new();
        let mut j: usize = 0;
        while j < metadata_content.len()
            invariant
                j <= metadata_content@.len(),
                content@ == metadata_content@.subrange(0, j as int),
            decreases metadata_content@.len() - j,
        {
            content.push(metadata_content[j]);
            j = j + 1;
            assert(content@ =~= metadata_content@.subrange(0, j as int));
        }
        assert(metadata_content@.subrange(0, metadata_content@.len() as int) =~= metadata_content@);
        assert(content.deep_view() =~= content@);
        match entry_count(self.archive.as_slice()) {
            Err(_) => {
                let mut only: Vec<(String, Vec<u8>)> = Vec::new();
                only.push((name, content));
                assert(only.deep_view() =~= seq![("iTunesMetadata.plist"@, metadata_content@)]);
                match store_entries(only.as_slice()) {
                    Ok(out) => {
                        self.archive = out;
                    },
                    Err(_) => {},
                }
            },
            Ok(_) => {
                let mut skip: Vec<String> = Vec::new();
                skip.push(name.clone());
                assert(skip.deep_view() =~= seq!["iTunesMetadata.plist"@]);
                let mut kept = match read_entries_except(self.archive.as_slice(), &skip) {
                    Ok(k) => k,
                    Err(_) => return,
                };
                let ghost base = kept.deep_view();
                kept.push((name, content));
                assert(kept.deep_view() =~= base + seq![("iTunesMetadata.plist"@, metadata_content@)]);
                match store_entries(kept.as_slice()) {
                    Ok(out) => {
                        self.archive = out;
                    },
                    Err(_) => {},
                }
            },
        }
    }

    /// Writes the fallback metadata dictionary (see [`fallback_entries`]); the archive is
    /// unchanged when it cannot be encoded.
    fn build_metadata_fallback(&mut self)
        ensures
            exists|d: Vec<(String, PlistNode)>| #![trigger metadata_document(d)]
                entries_view(d@) == fallback_entries(old(self).metadata, old(self).email) && final(self).archive@ == match metadata_document(d) {
                    Some(b) => spec_with_metadata(old(self).archive@, b),
                    None => old(self).archive@,
                },
            metadata_written(old(self).archive@, final(self).archive@),
            final(self).signatures == old(self).signatures,
            final(self).email == old(self).email,
            final(self).raw_metadata == old(self).raw_metadata,
            final(self).metadata == old(self).metadata,
    {
        let d = fallback_dictionary(&self.metadata, &self.email);
        let ghost dv = d;
        match encode_metadata(d) {
            Some(bytes) => {
                self.write_metadata_to_archive(bytes.as_slice());
            },
            None => {},
        }
        assert(metadata_document(dv) is Some ==> final(self).archive@ == spec_with_metadata(old(self).archive@, metadata_document(dv)->0));
    }

    /// Writes `iTunesMetadata.plist` into the archive: the raw metadata of the download
    /// response with `apple-id` and `userName` set to the email (see
    /// [`raw_metadata_entries`]); the fallback dictionary when there is no raw metadata or
    /// it cannot be encoded (see [`fallback_entries`]).  Other fields stay as they are.
    pub fn append_metadata(&mut self)
        ensures
            final(self).signatures == old(self).signatures,
            final(self).email == old(self).email,
            final(self).raw_metadata == old(self).raw_metadata,
            final(self).metadata == old(self).metadata,
            metadata_appended(*old(self), final(self).archive@),
            metadata_written(old(self).archive@, final(self).archive@),
    {
        match &self.raw_metadata {
            Some(raw) => {
                let d = raw_metadata_dictionary(raw, &self.email);
                let ghost dv = d;
                match encode_metadata(d) {
                    Some(bytes) => {
                        self.write_metadata_to_archive(bytes.as_slice());
                        assert(metadata_document(dv) is Some);
                    },
                    None => {
                        self.build_metadata_fallback();
                        assert(metadata_document(dv) is None);
                    },
                }
            },
            None => {
                self.build_metadata_fallback();
            },
        }
    }

    /// The bytes of the IPA.
    pub fn into_bytes(self) -> (r: Vec<u8>)
        ensures
            r@ == self.archive@,
    {
        self.archive
    }
}

} // verus!
