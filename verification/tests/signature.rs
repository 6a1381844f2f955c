use base64::Engine;
use ipatool::injection::{build_injection_plan, ManifestTargets, Sinf};
use ipatool::json::{JsonNode, JsonNumber};
use ipatool::signing::{SignatureClient, SignatureMetadata};
use std::io::{Cursor, Read, Write};
use zip::ZipArchive;

fn sample_signatures(count: usize) -> Vec<Sinf> {
    (0..count)
        .map(|index| Sinf {
            id: index.to_string(),
            sinf: base64::engine::general_purpose::STANDARD.encode(format!("sinf-{index}")),
        })
        .collect()
}

fn write_zip(entries: Vec<(&str, Vec<u8>)>) -> Vec<u8> {
    let mut out = Vec::new();
    let cursor = Cursor::new(&mut out);
    let mut zip = zip::ZipWriter::new(cursor);
    let file_options: zip::write::FileOptions<'_, ()> =
        zip::write::FileOptions::default().compression_method(zip::CompressionMethod::Stored);
    let dir_options: zip::write::FileOptions<'_, ()> =
        zip::write::FileOptions::default().compression_method(zip::CompressionMethod::Stored);
    for (path, content) in entries {
        if path.ends_with('/') {
            zip.add_directory(path, dir_options).unwrap();
        } else {
            zip.start_file(path, file_options).unwrap();
            zip.write_all(&content).unwrap();
        }
    }
    let _ = zip.finish().unwrap();
    out
}

fn info_plist(executable: &str) -> Vec<u8> {
    let mut dict = plist::Dictionary::new();
    dict.insert("CFBundleExecutable".to_string(), plist::Value::String(executable.to_string()));
    let value = plist::Value::Dictionary(dict);
    let mut out = Vec::new();
    plist::to_writer_xml(&mut out, &value).unwrap();
    out
}

fn empty_metadata() -> SignatureMetadata {
    SignatureMetadata {
        bundle_display_name: None,
        bundle_short_version_string: None,
        bundle_id: None,
        artwork_url: None,
        artist_name: None,
        apple_id: None,
        user_name: None,
    }
}

fn text(s: &str) -> JsonNode {
    JsonNode::String(s.to_string())
}

fn member(k: &str, v: JsonNode) -> (String, JsonNode) {
    (k.to_string(), v)
}

fn read_entry(archive: &[u8], name: &str) -> Vec<u8> {
    let mut zip = ZipArchive::new(Cursor::new(archive)).unwrap();
    let mut entry = zip.by_name(name).unwrap();
    let mut content = Vec::new();
    entry.read_to_end(&mut content).unwrap();
    content
}

#[test]
fn build_injection_plan_maps_replication_to_same_basename() {
    let signatures = sample_signatures(2);
    let manifest_targets = ManifestTargets {
        sinf_paths: vec![
            "SC_Info/Main.sinf".to_string(),
            "PlugIns/Widget.appex/SC_Info/Widget.sinf".to_string(),
        ],
        sinf_replication_paths: vec!["Extensions/Copy/SC_Info/Widget.sinf".to_string()],
    };

    let plan = build_injection_plan(&signatures, &manifest_targets).unwrap();
    assert_eq!(
        plan.applied_paths,
        vec![
            "SC_Info/Main.sinf",
            "PlugIns/Widget.appex/SC_Info/Widget.sinf",
            "Extensions/Copy/SC_Info/Widget.sinf"
        ]
    );
    assert_eq!(plan.replacements.len(), 3);
    assert_eq!(plan.replacements[0].signature_index, 0);
    assert_eq!(plan.replacements[1].signature_index, 1);
    assert_eq!(plan.replacements[2].signature_index, 1);
    assert!(plan.warning.is_none());
}

#[test]
fn build_injection_plan_rejects_unresolvable_replication_mapping() {
    let signatures = sample_signatures(2);
    let manifest_targets = ManifestTargets {
        sinf_paths: vec![
            "SC_Info/Main.sinf".to_string(),
            "PlugIns/Widget.appex/SC_Info/Widget.sinf".to_string(),
        ],
        sinf_replication_paths: vec!["Extensions/Copy/SC_Info/Unknown.sinf".to_string()],
    };

    let plan = build_injection_plan(&signatures, &manifest_targets).unwrap();
    assert!(plan.applied_paths.is_empty());
    assert!(plan.replacements.is_empty());
    assert!(plan.warning.unwrap_or_default().contains("找不到同 basename 的主 SinfPath"));
}

#[test]
fn append_signatures_falls_back_to_info_plist_when_manifest_missing() {
    let archive = write_zip(vec![
        ("Payload/Test.app/", Vec::new()),
        ("Payload/Test.app/Info.plist", info_plist("TestExec")),
    ]);

    let mut client = SignatureClient {
        archive,
        raw_metadata: None,
        metadata: empty_metadata(),
        signatures: vec![Sinf {
            id: "0".to_string(),
            sinf: base64::engine::general_purpose::STANDARD.encode(b"fallback-sinf"),
        }],
        email: "tester@example.com".to_string(),
    };

    let result = client.append_signatures().unwrap();
    assert_eq!(result.applied_paths, vec!["SC_Info/TestExec.sinf"]);
    assert!(result.warning.unwrap_or_default().contains("回退注入首个 sinf"));

    let content = read_entry(&client.archive, "Payload/Test.app/SC_Info/TestExec.sinf");
    assert_eq!(content, b"fallback-sinf");
}

#[test]
fn append_signatures_injects_replication_with_matching_primary_signature() {
    let mut manifest = plist::Dictionary::new();
    manifest.insert(
        "SinfPaths".to_string(),
        plist::Value::Array(vec![
            plist::Value::String("SC_Info/Main.sinf".to_string()),
            plist::Value::String("PlugIns/Widget.appex/SC_Info/Widget.sinf".to_string()),
        ]),
    );
    manifest.insert(
        "SinfReplicationPaths".to_string(),
        plist::Value::Array(vec![plist::Value::String("Extensions/Copy/SC_Info/Widget.sinf".to_string())]),
    );
    let mut manifest_bytes = Vec::new();
    plist::to_writer_xml(&mut manifest_bytes, &plist::Value::Dictionary(manifest)).unwrap();

    let archive = write_zip(vec![
        ("Payload/Test.app/", Vec::new()),
        ("Payload/Test.app/Info.plist", info_plist("Main")),
        ("Payload/Test.app/SC_Info/Manifest.plist", manifest_bytes),
    ]);

    let signatures = vec![
        Sinf { id: "0".to_string(), sinf: base64::engine::general_purpose::STANDARD.encode(b"main-sinf") },
        Sinf { id: "1".to_string(), sinf: base64::engine::general_purpose::STANDARD.encode(b"widget-sinf") },
    ];

    let mut client = SignatureClient {
        archive,
        raw_metadata: None,
        metadata: empty_metadata(),
        signatures,
        email: "tester@example.com".to_string(),
    };

    let result = client.append_signatures().unwrap();
    assert!(result.warning.is_none());

    let main_bytes = read_entry(&client.archive, "Payload/Test.app/SC_Info/Main.sinf");
    let widget_bytes = read_entry(&client.archive, "Payload/Test.app/PlugIns/Widget.appex/SC_Info/Widget.sinf");
    let replication_bytes = read_entry(&client.archive, "Payload/Test.app/Extensions/Copy/SC_Info/Widget.sinf");

    assert_eq!(main_bytes, b"main-sinf");
    assert_eq!(widget_bytes, b"widget-sinf");
    assert_eq!(replication_bytes, b"widget-sinf");
}

#[test]
fn append_metadata_preserves_raw_apple_metadata_fields() {
    let archive = write_zip(vec![
        ("Payload/Test.app/", Vec::new()),
        ("Payload/Test.app/Info.plist", info_plist("TestExec")),
    ]);

    let version_ids = JsonNode::Array(vec![
        JsonNode::Object(vec![member("externalVersionId", text("v1"))]),
        JsonNode::Object(vec![member("externalVersionId", text("v2"))]),
    ]);
    let raw_metadata = vec![
        member("artistName", text("TestArtist")),
        member("artworkUrl512", text("https://example.com/icon512.png")),
        member("artworkUrl60", text("https://example.com/icon60.png")),
        member("bundleDisplayName", text("TestApp")),
        member("bundleId", text("com.test.app")),
        member("bundleShortVersionString", text("3.2.1")),
        member("bundleVersion", text("321")),
        member(
            "fileSizeBytes",
            JsonNode::Number(JsonNumber {
                integer: Some(12345678),
                real: "12345678".to_string(),
                text: "12345678".to_string(),
                whole: 12345678,
            }),
        ),
        member("releaseDate", text("2025-01-15T08:00:00Z")),
        member("softwareVersionExternalIdentifiers", version_ids),
        member("someExtraField", text("extra-value")),
    ];

    let mut client = SignatureClient {
        archive,
        raw_metadata: Some(raw_metadata),
        metadata: empty_metadata(),
        signatures: Vec::new(),
        email: "tester@example.com".to_string(),
    };

    client.append_metadata();

    let content = read_entry(&client.archive, "iTunesMetadata.plist");
    let parsed = plist::from_bytes::<plist::Value>(&content).unwrap();
    let dict = parsed.as_dictionary().expect("expected dictionary");

    assert_eq!(dict.get("bundleDisplayName").and_then(|v| v.as_string()), Some("TestApp"));
    assert_eq!(dict.get("bundleVersion").and_then(|v| v.as_string()), Some("321"));
    assert_eq!(dict.get("fileSizeBytes").and_then(|v| v.as_signed_integer()), Some(12345678));
    assert_eq!(dict.get("someExtraField").and_then(|v| v.as_string()), Some("extra-value"));
    assert_eq!(dict.get("apple-id").and_then(|v| v.as_string()), Some("tester@example.com"));
    assert_eq!(dict.get("userName").and_then(|v| v.as_string()), Some("tester@example.com"));
}
