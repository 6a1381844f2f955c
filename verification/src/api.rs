//! The operations offered to a browser host: inspecting an IPA, reading its metadata,
//! writing a download's signatures and metadata into it, and building install documents.
//! Failures are reported as message texts.
use vstd::prelude::*;
use crate::archive::zip_listing;
use crate::bundle::spec_app_bundle;
use crate::error::{sig_error_text, SigErrorView};
use crate::injection::{plan_view, SignatureApplyResult};
use crate::inspection::{inspect_ipa, inspection_of, spec_checked_binaries, spec_encrypted_among, IpaInspection};
use crate::json::{json_parsed, parse_json};
use crate::metadata::{extract_itunes_metadata_from_bytes, metadata_of, IpaMetadata};
use crate::ota::{
    clock_uuid_text, generate_mobileconfig, generate_plist, itms_link, mobileconfig_shape, ota_manifest_shape,
    xml_text_outcome,
};
use crate::property_list::PlistNode;
use crate::signing::{
    client_from_response, lemma_client_texts, metadata_appended, metadata_written, response_texts, signed_reads_back, spec_append_signatures,
    SignatureClient,
};

verus! {

/// Inspects an IPA without changing it (see [`inspect_ipa`]); an error is reported by its
/// message.
pub fn inspect(ipa_bytes: &[u8]) -> (r: Result<IpaInspection, String>)
    ensures
        match zip_listing(ipa_bytes@) {
            Err(e) => r matches Err(m) && m@ == e,
            Ok(names) => match spec_app_bundle(names) {
                None => r matches Err(m) && m@ == sig_error_text(SigErrorView::NoAppBundle),
                Some(bundle) => match spec_encrypted_among(ipa_bytes@, spec_checked_binaries(ipa_bytes@, names, bundle)) {
                    None => r matches Err(m) && m@ == sig_error_text(SigErrorView::SelfNestedMacho),
                    Some(enc) => r matches Ok(ins) && inspection_of(ins, ipa_bytes@, names, bundle, enc),
                },
            },
        },
{
    match inspect_ipa(ipa_bytes) {
        Ok(i) => Ok(i),
        Err(e) => Err(e.message()),
    }
}

/// The message when an IPA's metadata cannot be read.
pub open spec fn metadata_failure_text() -> Seq<char> {
    "无法解析 IPA 元数据"@
}

/// The metadata of an IPA (see [`extract_itunes_metadata_from_bytes`]), or
/// [`metadata_failure_text`] when there is none.
pub fn extract_metadata(ipa_bytes: &[u8]) -> (r: Result<IpaMetadata, String>)
    ensures
        match zip_listing(ipa_bytes@) {
            Err(_) => r matches Err(m) && m@ == metadata_failure_text(),
            Ok(names) => match r {
                Ok(m) => metadata_of(m, ipa_bytes@, names) && (m.bundle_id is Some || m.item_name is Some
                    || m.bundle_display_name is Some),
                Err(t) => t@ == metadata_failure_text() && forall|m: IpaMetadata| #[trigger] metadata_of(m, ipa_bytes@, names) ==> (
                m.bundle_id is None && m.item_name is None && m.bundle_display_name is None),
            },
        },
{
    match extract_itunes_metadata_from_bytes(ipa_bytes) {
        Some(m) => Ok(m),
        None => {
            proof {
                reveal_strlit("无法解析 IPA 元数据");
            }
            Err("无法解析 IPA 元数据".to_owned())
        },
    }
}

/// Writes a download's `iTunesMetadata.plist` and then its signatures into an IPA and
/// returns the new bytes.  `song_list_0_json` is the JSON text of the download response
/// (`songList[0]`); an unreadable text, or a failure to write the signatures, is reported
/// by its message.
pub fn apply_patch(ipa_bytes: Vec<u8>, song_list_0_json: &str, email: &str) -> (r: Result<Vec<u8>, String>)
    ensures
        match json_parsed(song_list_0_json@) {
            Err(e) => r matches Err(m) && m@ == e,
            Ok(song) => exists|c: SignatureClient, mid: Seq<u8>| #![trigger metadata_appended(c, mid)]
                c.archive@ == ipa_bytes@ && client_from_response(c, song, email@) && metadata_appended(c, mid)
                    && metadata_written(ipa_bytes@, mid) && match spec_append_signatures(mid, response_texts(song)) {
                    Ok(done) => r matches Ok(b) && b@ == done.1 && signed_reads_back(mid, response_texts(song), b@),
                    Err(e) => r matches Err(m) && m@ == sig_error_text(e),
                },
        },
{
    let song = match parse_json(song_list_0_json) {
        Ok(v) => v,
        Err(e) => return Err(e),
    };
    let mut client = match SignatureClient::from_bytes(ipa_bytes, &song, email) {
        Ok(c) => c,
        Err(e) => return Err(e.message()),
    };
    let ghost before = client;
    client.append_metadata();
    let ghost mid = client.archive@;
    proof {
        lemma_client_texts(before, song, email@);
    }
    assert(metadata_appended(before, mid));
    match client.append_signatures() {
        Ok(_) => Ok(client.into_bytes()),
        Err(e) => Err(e.message()),
    }
}

/// Writes a download's signatures (and no metadata) into an IPA and returns what was
/// applied together with the new bytes; failures as in [`apply_patch`].
pub fn apply_signatures_only(ipa_bytes: Vec<u8>, song_list_0_json: &str, email: &str) -> (r: Result<(SignatureApplyResult, Vec<u8>), String>)
    ensures
        match json_parsed(song_list_0_json@) {
            Err(e) => r matches Err(m) && m@ == e,
            Ok(song) => match spec_append_signatures(ipa_bytes@, response_texts(song)) {
                Ok(done) => r matches Ok(pair) && plan_view(pair.0) == done.0 && pair.1@ == done.1
                    && signed_reads_back(ipa_bytes@, response_texts(song), pair.1@),
                Err(e) => r matches Err(m) && m@ == sig_error_text(e),
            },
        },
{
    let song = match parse_json(song_list_0_json) {
        Ok(v) => v,
        Err(e) => return Err(e),
    };
    let mut client = match SignatureClient::from_bytes(ipa_bytes, &song, email) {
        Ok(c) => c,
        Err(e) => return Err(e.message()),
    };
    proof {
        lemma_client_texts(client, song, email@);
    }
    match client.append_signatures() {
        Ok(result) => Ok((result, client.into_bytes())),
        Err(e) => Err(e.message()),
    }
}

/// The OTA install manifest of an IPA (see [`generate_plist`]).
pub fn build_ota_manifest(ipa_url: String, bundle_id: String, version: String, title: String) -> (r: Result<String, String>)
    ensures
        exists|root: PlistNode| #![trigger xml_text_outcome(root)]
            ota_manifest_shape(root, ipa_url@, bundle_id@, version@, title@) && match xml_text_outcome(root) {
                Ok(t) => r matches Ok(s) && s@ == t,
                Err(e) => r matches Err(m) && m@ == e,
            },
{
    generate_plist(ipa_url, bundle_id, version, title)
}

/// The configuration profile that opens an install link (see [`generate_mobileconfig`]).
pub fn build_mobileconfig(manifest_url: String, display_name: String) -> (r: Result<String, String>)
    ensures
        exists|root: PlistNode, n0: nat, n1: nat, n2: nat, n3: nat| #![trigger xml_text_outcome(root), clock_uuid_text(n0), clock_uuid_text(n1), clock_uuid_text(n2), clock_uuid_text(n3)]
            mobileconfig_shape(
                root,
                itms_link(vstd::utf8::encode_utf8(manifest_url@)),
                display_name@,
                seq![clock_uuid_text(n0), clock_uuid_text(n1), clock_uuid_text(n2), clock_uuid_text(n3)],
            ) && match xml_text_outcome(root) {
                Ok(t) => r matches Ok(s) && s@ == t,
                Err(e) => r matches Err(m) && m@ == e,
            },
{
    generate_mobileconfig(manifest_url, display_name)
}

} // verus!
