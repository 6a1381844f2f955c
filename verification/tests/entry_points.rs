use ipatool::api::{apply_patch, apply_signatures_only, build_mobileconfig, build_ota_manifest, extract_metadata, inspect};
use ipatool::bundle::{find_app_bundle_name, read_plist_from_zip};
use ipatool::error::SigError;
use ipatool::json::{parse_json_object, JsonNode};
use ipatool::property_list::PlistNode;
use std::io::{Cursor, Read, Write};

fn write_zip(entries: &[(&str, Vec<u8>)]) -> Vec<u8> {
    let mut out = Vec::new();
    {
        let cursor = Cursor::new(&mut out);
        let mut zip = zip::ZipWriter::new(cursor);
        let opts: zip::write::FileOptions<'_, ()> =
            zip::write::FileOptions::default().compression_method(zip::CompressionMethod::Stored);
        for (path, data) in entries {
            if path.ends_with('/') {
                zip.add_directory(*path, opts).unwrap();
            } else {
                zip.start_file(*path, opts).unwrap();
                zip.write_all(data).unwrap();
            }
        }
        zip.finish().unwrap();
    }
    out
}

fn plist_bytes(pairs: &[(&str, plist::Value)]) -> Vec<u8> {
    let mut dict = plist::Dictionary::new();
    for (k, v) in pairs {
        dict.insert(k.to_string(), v.clone());
    }
    let mut out = Vec::new();
    plist::to_writer_xml(&mut out, &plist::Value::Dictionary(dict)).unwrap();
    out
}

fn sample_ipa() -> Vec<u8> {
    let info = plist_bytes(&[
        ("CFBundleExecutable", plist::Value::String("Demo".to_string())),
        ("CFBundleIdentifier", plist::Value::String("com.demo.app".to_string())),
        ("CFBundleShortVersionString", plist::Value::String("4.5".to_string())),
        ("CFBundleDisplayName", plist::Value::String("Demo".to_string())),
    ]);
    let manifest = plist_bytes(&[(
        "SinfPaths",
        plist::Value::Array(vec![plist::Value::String("SC_Info/Demo.sinf".to_string())]),
    )]);
    write_zip(&[
        ("Payload/Demo.app/", Vec::new()),
        ("Payload/Demo.app/Info.plist", info),
        ("Payload/Demo.app/SC_Info/Manifest.plist", manifest),
        ("Payload/Demo.app/Demo", vec![0u8; 64]),
    ])
}

fn song_json() -> String {
    let sinf = base64::Engine::encode(&base64::engine::general_purpose::STANDARD, b"demo-sinf");
    format!(
        r#"{{"metadata":{{"bundleId":"com.demo.app","bundleDisplayName":"Demo","extra":7}},"sinfs":[{{"id":0,"sinf":"{}"}}]}}"#,
        sinf
    )
}

fn read_entry(archive: &[u8], name: &str) -> Option<Vec<u8>> {
    let mut zip = zip::ZipArchive::new(Cursor::new(archive)).ok()?;
    let mut file = zip.by_name(name).ok()?;
    let mut out = Vec::new();
    file.read_to_end(&mut out).ok()?;
    Some(out)
}

#[test]
fn apply_patch_writes_signature_and_metadata() {
    let patched = apply_patch(sample_ipa(), &song_json(), "me@example.com").unwrap();
    assert_eq!(read_entry(&patched, "Payload/Demo.app/SC_Info/Demo.sinf").unwrap(), b"demo-sinf");
    let metadata = read_entry(&patched, "iTunesMetadata.plist").unwrap();
    let value = plist::from_bytes::<plist::Value>(&metadata).unwrap();
    let dict = value.as_dictionary().unwrap();
    assert_eq!(dict.get("apple-id").and_then(|v| v.as_string()), Some("me@example.com"));
    assert_eq!(dict.get("userName").and_then(|v| v.as_string()), Some("me@example.com"));
    assert_eq!(dict.get("bundleId").and_then(|v| v.as_string()), Some("com.demo.app"));
    assert_eq!(dict.get("extra").and_then(|v| v.as_signed_integer()), Some(7));
}

#[test]
fn apply_patch_reports_unreadable_json_and_archives() {
    let err = apply_patch(sample_ipa(), "{not json", "me@example.com").unwrap_err();
    assert!(!err.is_empty());
    let err = apply_patch(b"not a zip".to_vec(), &song_json(), "me@example.com").unwrap_err();
    assert!(!err.is_empty());
}

#[test]
fn apply_signatures_only_leaves_metadata_out() {
    let (result, bytes) = apply_signatures_only(sample_ipa(), &song_json(), "me@example.com").unwrap();
    assert_eq!(result.applied_paths, vec!["SC_Info/Demo.sinf".to_string()]);
    assert_eq!(result.replacements.len(), 1);
    assert_eq!(result.replacements[0].signature_index, 0);
    assert!(read_entry(&bytes, "iTunesMetadata.plist").is_none());
    assert_eq!(read_entry(&bytes, "Payload/Demo.app/SC_Info/Demo.sinf").unwrap(), b"demo-sinf");
}

#[test]
fn inspect_and_metadata_entry_points() {
    let ins = inspect(&sample_ipa()).unwrap();
    assert_eq!(ins.bundle_id.as_deref(), Some("com.demo.app"));
    assert_eq!(ins.declared_sinf_paths, vec!["SC_Info/Demo.sinf".to_string()]);
    assert_eq!(ins.missing_sinf_paths, vec!["SC_Info/Demo.sinf".to_string()]);
    assert!(!ins.direct_install_ok);

    let md = extract_metadata(&sample_ipa()).unwrap();
    assert_eq!(md.bundle_id.as_deref(), Some("com.demo.app"));
    assert_eq!(md.bundle_short_version.as_deref(), Some("4.5"));

    assert!(inspect(b"garbage").is_err());
    assert_eq!(extract_metadata(b"garbage").unwrap_err(), "无法解析 IPA 元数据");
    let bare = write_zip(&[("readme.txt", b"hi".to_vec())]);
    assert_eq!(inspect(&bare).unwrap_err(), "Could not find app bundle");
}

#[test]
fn app_bundle_lookup_and_plist_reading() {
    assert_eq!(find_app_bundle_name(&sample_ipa()).unwrap(), "Demo.app");
    let nested = write_zip(&[("Payload/Other.app/Info.plist", b"x".to_vec())]);
    assert_eq!(find_app_bundle_name(&nested).unwrap(), "Other.app");
    let bare = write_zip(&[("readme.txt", b"hi".to_vec())]);
    assert!(matches!(find_app_bundle_name(&bare), Err(SigError::NoAppBundle)));
    assert!(matches!(find_app_bundle_name(b"zzz"), Err(SigError::Archive(_))));
    assert_eq!(SigError::NoAppBundle.message(), "Could not find app bundle");

    let info = read_plist_from_zip(&sample_ipa(), &"Payload/Demo.app/Info.plist".to_string()).unwrap();
    match info {
        PlistNode::Dictionary(entries) => assert!(entries.iter().any(|(k, _)| k == "CFBundleIdentifier")),
        _ => panic!("expected a dictionary"),
    }
    assert!(read_plist_from_zip(&sample_ipa(), &"Payload/Demo.app/Missing.plist".to_string()).is_none());
}

#[test]
fn json_objects_are_parsed_member_by_member() {
    let members = parse_json_object(r#"{"b": 1, "a": "x"}"#).unwrap();
    assert_eq!(members.len(), 2);
    assert_eq!(members[0].0, "a");
    assert!(matches!(&members[0].1, JsonNode::String(s) if s == "x"));
    assert!(parse_json_object("[1, 2]").is_none());
    assert!(parse_json_object("nope").is_none());
}

#[test]
fn install_documents_from_entry_points() {
    let manifest = build_ota_manifest(
        "https://example.com/app.ipa".to_string(),
        "com.example.app".to_string(),
        "1.0.0".to_string(),
        "Test App".to_string(),
    )
    .unwrap();
    assert!(manifest.contains("software-package"));
    assert!(manifest.contains("com.example.app"));
    let profile = build_mobileconfig("https://example.com/m.plist".to_string(), "Test App".to_string()).unwrap();
    assert!(profile.contains("itms-services://?action=download-manifest&amp;url=https%3A%2F%2Fexample.com%2Fm.plist"));
}
