use ipatool::ota::{generate_mobileconfig, generate_plist, url_encode, uuid_from_nanos};

#[test]
fn test_generate_plist() {
    let result = generate_plist(
        "https://example.com/app.ipa".to_string(),
        "com.example.app".to_string(),
        "1.0.0".to_string(),
        "Test App".to_string(),
    );
    assert!(result.is_ok());
    let plist = result.unwrap();
    assert!(plist.contains("<key>items</key>"));
    assert!(plist.contains("software-package"));
    assert!(plist.contains("bundle-identifier"));
}

#[test]
fn test_generate_mobileconfig() {
    let result = generate_mobileconfig("https://example.com/manifest.plist".to_string(), "Test App".to_string());
    assert!(result.is_ok());
    let mc = result.unwrap();
    assert!(mc.contains("itms-services://"));
    assert!(mc.contains("PayloadType"));
}

#[test]
fn url_encode_keeps_unreserved_and_escapes_the_rest() {
    assert_eq!(url_encode("https://a.b/c?d=e f~_-."), "https%3A%2F%2Fa.b%2Fc%3Fd%3De%20f~_-.");
    assert_eq!(url_encode("é"), "%C3%A9");
    assert_eq!(url_encode(""), "");
}

#[test]
fn mobileconfig_link_wraps_encoded_manifest_url() {
    let mc = generate_mobileconfig("https://x.io/m.plist".to_string(), "App".to_string()).unwrap();
    assert!(mc.contains("itms-services://?action=download-manifest&amp;url=https%3A%2F%2Fx.io%2Fm.plist"));
}

#[test]
fn clock_uuid_uses_low_48_bits_in_hex() {
    assert_eq!(uuid_from_nanos(0), "00000000-0000-4000-8000-000000000000");
    assert_eq!(uuid_from_nanos(0x1_2345_6789_abcd_ef01), "00000000-0000-4000-8000-6789abcdef01");
}
