//! Over-the-air installation documents: the `manifest.plist` that `itms-services`
//! reads, and a `.mobileconfig` profile that wraps its link.
use vstd::prelude::*;
use vstd::string::StringSliceAdditionalSpecFns;
use crate::property_list::{PlistNode, encode_plist_xml, plist_xml};
use crate::text::{chars_of, hex_digit, hex_lower_char, hex_upper_char, push_chars, push_str, string_from_chars};

verus! {

/// The text of UTF-8 bytes that std reports as invalid, as its error displays it.
pub uninterp spec fn utf8_error_text(bytes: Seq<u8>) -> Seq<char>;

/// The text of a byte buffer.
///
/// Trusted: `String::from_utf8`, which std documents as succeeding exactly on valid UTF-8
/// (decoded as vstd's `decode_utf8` states); the error's text depends on the bytes alone.
#[verifier::external_body]
pub fn string_from_utf8(bytes: Vec<u8>) -> (r: Result<String, String>)
    ensures
        match r {
            Ok(s) => vstd::utf8::valid_utf8(bytes@) && s@ == vstd::utf8::decode_utf8(bytes@),
            Err(m) => !vstd::utf8::valid_utf8(bytes@) && m@ == utf8_error_text(bytes@),
        },
{
    String::from_utf8(bytes).map_err(|e| e.to_string())
}

/// The outcome of writing a property-list tree as XML text: the text, or the error text
/// of the writer or of the UTF-8 check.
pub open spec fn xml_text_outcome(node: PlistNode) -> Result<Seq<char>, Seq<char>> {
    match plist_xml(node) {
        Ok(b) => if vstd::utf8::valid_utf8(b) { Ok(vstd::utf8::decode_utf8(b)) } else { Err(utf8_error_text(b)) },
        Err(e) => Err(e),
    }
}

fn xml_text(node: &PlistNode) -> (r: Result<String, String>)
    ensures
        match xml_text_outcome(*node) {
            Ok(t) => r matches Ok(s) && s@ == t,
            Err(e) => r matches Err(m) && m@ == e,
        },
{
    match encode_plist_xml(node) {
        Ok(bytes) => string_from_utf8(bytes),
        Err(e) => Err(e),
    }
}

/// Whether the node is the string `t`.
pub open spec fn text_is(n: PlistNode, t: Seq<char>) -> bool {
    n matches PlistNode::String(s) && s@ == t
}

/// Whether the dictionary entries have exactly these keys, in this order.
pub open spec fn keys_are(entries: Seq<(String, PlistNode)>, keys: Seq<Seq<char>>) -> bool {
    entries.len() == keys.len() && forall|i: int| 0 <= i < keys.len() ==> (#[trigger] entries[i]).0@ == keys[i]
}

/// The entries of a dictionary node (none for another node).
pub open spec fn dict_of(n: PlistNode) -> Seq<(String, PlistNode)> {
    match n {
        PlistNode::Dictionary(e) => e@,
        _ => Seq::empty(),
    }
}

/// The items of an array node (none for another node).
pub open spec fn array_of(n: PlistNode) -> Seq<PlistNode> {
    match n {
        PlistNode::Array(a) => a@,
        _ => Seq::empty(),
    }
}

/// The OTA manifest for an IPA at `url`:
/// `{items: [{assets: [{kind: software-package, url}],
///   metadata: {bundle-identifier, bundle-version, kind: software, title}}]}`.
pub open spec fn ota_manifest_shape(root: PlistNode, url: Seq<char>, bundle_identifier: Seq<char>, bundle_version: Seq<char>, title: Seq<char>) -> bool {
    let r = dict_of(root);
    let items = array_of(r[0].1);
    let item = dict_of(items[0]);
    let assets = array_of(item[0].1);
    let asset = dict_of(assets[0]);
    let md = dict_of(item[1].1);
    &&& root is Dictionary && keys_are(r, seq!["items"@])
    &&& r[0].1 is Array && items.len() == 1
    &&& items[0] is Dictionary && keys_are(item, seq!["assets"@, "metadata"@])
    &&& item[0].1 is Array && assets.len() == 1
    &&& assets[0] is Dictionary && keys_are(asset, seq!["kind"@, "url"@])
    &&& text_is(asset[0].1, "software-package"@) && text_is(asset[1].1, url)
    &&& item[1].1 is Dictionary && keys_are(md, seq!["bundle-identifier"@, "bundle-version"@, "kind"@, "title"@])
    &&& text_is(md[0].1, bundle_identifier) && text_is(md[1].1, bundle_version) && text_is(md[2].1, "software"@)
    &&& text_is(md[3].1, title)
}

fn text_node(t: &str) -> (n: PlistNode)
    ensures
        text_is(n, t@),
{
    PlistNode::String(t.to_owned())
}

fn entry(key: &str, value: PlistNode) -> (e: (String, PlistNode))
    ensures
        e.0@ == key@,
        e.1 == value,
{
    (key.to_owned(), value)
}

/// The OTA `manifest.plist` for an IPA at `url` (see [`ota_manifest_shape`]), as XML
/// text, or the writer's error text.
pub fn generate_plist(url: String, bundle_identifier: String, bundle_version: String, title: String) -> (r: Result<String, String>)
    ensures
        exists|root: PlistNode| #![trigger xml_text_outcome(root)]
            ota_manifest_shape(root, url@, bundle_identifier@, bundle_version@, title@) && match xml_text_outcome(root) {
                Ok(t) => r matches Ok(s) && s@ == t,
                Err(e) => r matches Err(m) && m@ == e,
            },
{
    let ghost (u, bi, bv, t) = (url@, bundle_identifier@, bundle_version@, title@);
    let mut asset: Vec<(String, PlistNode)> = Vec::new();
    asset.push(entry("kind", text_node("software-package")));
    asset.push(entry("url", PlistNode::String(url)));
    let mut metadata: Vec<(String, PlistNode)> = Vec::new();
    metadata.push(entry("bundle-identifier", PlistNode::String(bundle_identifier)));
    metadata.push(entry("bundle-version", PlistNode::String(bundle_version)));
    metadata.push(entry("kind", text_node("software")));
    metadata.push(entry("title", PlistNode::String(title)));
    let mut assets: Vec<PlistNode> = Vec::new();
    assets.push(PlistNode::Dictionary(asset));
    let mut item: Vec<(String, PlistNode)> = Vec::new();
    item.push(entry("assets", PlistNode::Array(assets)));
    item.push(entry("metadata", PlistNode::Dictionary(metadata)));
    let mut items: Vec<PlistNode> = Vec::new();
    items.push(PlistNode::Dictionary(item));
    let mut root_entries: Vec<(String, PlistNode)> = Vec::new();
    root_entries.push(entry("items", PlistNode::Array(items)));
    let root = PlistNode::Dictionary(root_entries);
    assert(ota_manifest_shape(root, u, bi, bv, t));
    xml_text(&root)
}

/// Whether a byte is left as is by URL encoding: ASCII letters and digits and `-_.~`.
pub open spec fn is_unreserved(c: u8) -> bool {
    (0x30 <= c <= 0x39) || (0x41 <= c <= 0x5a) || (0x61 <= c <= 0x7a) || c == 0x2d || c == 0x5f || c == 0x2e || c == 0x7e
}

/// The URL encoding of bytes: unreserved bytes as themselves, every other byte as `%`
/// and two upper-case hexadecimal digits.
pub open spec fn spec_url_encode(b: Seq<u8>) -> Seq<char>
    decreases b.len(),
{
    if b.len() == 0 {
        Seq::empty()
    } else {
        let c = b.last();
        spec_url_encode(b.drop_last()) + if is_unreserved(c) {
            seq![c as char]
        } else {
            seq!['%', hex_upper_char((c / 16) as nat), hex_upper_char((c % 16) as nat)]
        }
    }
}

/// URL-encodes the UTF-8 bytes of the text (see [`spec_url_encode`]).
pub fn url_encode(input: &str) -> (r: String)
    ensures
        r@ == spec_url_encode(input.spec_bytes()),
{
    let bytes = input.as_bytes();
    let mut out: Vec<char> = Vec::new();
    let mut i: usize = 0;
    while i < bytes.len()
        invariant
            i <= bytes@.len(),
            bytes@ == input.spec_bytes(),
            out@ == spec_url_encode(bytes@.subrange(0, i as int)),
        decreases bytes@.len() - i,
    {
        let c = bytes[i];
        assert(bytes@.subrange(0, i + 1).drop_last() =~= bytes@.subrange(0, i as int));
        let unreserved = (0x30 <= c && c <= 0x39) || (0x41 <= c && c <= 0x5a) || (0x61 <= c && c <= 0x7a) || c == 0x2d
            || c == 0x5f || c == 0x2e || c == 0x7e;
        let ghost before = out@;
        if unreserved {
            out.push(c as char);
        } else {
            out.push('%');
            out.push(hex_digit(c / 16, true));
            out.push(hex_digit(c % 16, true));
        }
        assert(out@ =~= spec_url_encode(bytes@.subrange(0, i + 1)));
        i = i + 1;
    }
    assert(bytes@.subrange(0, bytes@.len() as int) =~= bytes@);
    string_from_chars(out.as_slice())
}

/// Nanoseconds since the Unix epoch by the system clock (0 when the clock is before it).
///
/// Trusted: `SystemTime::now().duration_since(UNIX_EPOCH)` and `as_nanos`; the result
/// depends on the time, so nothing is stated of it.
#[verifier::external_body]
fn nanos_since_epoch() -> (r: u128) {
    std::time::SystemTime::now().duration_since(std::time::UNIX_EPOCH).map(|d| d.as_nanos()).unwrap_or(0)
}

/// `v` in `width` lower-case hexadecimal digits (the low digits when it has more).
pub open spec fn hex_fixed(v: nat, width: nat) -> Seq<char>
    decreases width,
{
    if width == 0 {
        Seq::empty()
    } else {
        hex_fixed(v / 16, (width - 1) as nat).push(hex_lower_char(v % 16))
    }
}

fn hex_fixed_chars(v: u128, width: u64) -> (r: Vec<char>)
    ensures
        r@ == hex_fixed(v as nat, width as nat),
    decreases width,
{
    if width == 0 {
        Vec::new()
    } else {
        let mut out = hex_fixed_chars(v / 16, width - 1);
        out.push(hex_digit((v % 16) as u8, false));
        out
    }
}

/// The identifier made from a clock reading: `00000000-0000-4000-8000-` and the low 48
/// bits of the reading in twelve lower-case hexadecimal digits.
pub open spec fn clock_uuid_text(nanos: nat) -> Seq<char> {
    "00000000-0000-4000-8000-"@ + hex_fixed(nanos % 0x1000000000000, 12)
}

/// The identifier made from a clock reading (see [`clock_uuid_text`]).
pub fn uuid_from_nanos(nanos: u128) -> (r: String)
    ensures
        r@ == clock_uuid_text(nanos as nat),
{
    let mut buf: Vec<char> = Vec::new();
    push_str(&mut buf, "00000000-0000-4000-8000-");
    let digits = hex_fixed_chars(nanos % 0x1000000000000, 12);
    push_chars(&mut buf, digits.as_slice());
    string_from_chars(buf.as_slice())
}

/// A UUID-shaped identifier from the system clock (see [`clock_uuid_text`]).
pub fn pseudo_uuid() -> (r: String)
    ensures
        exists|n: nat| r@ == clock_uuid_text(n),
{
    let nanos = nanos_since_epoch();
    uuid_from_nanos(nanos)
}

/// The `itms-services` link that installs from a manifest URL.
pub open spec fn itms_link(manifest_url: Seq<u8>) -> Seq<char> {
    "itms-services://?action=download-manifest&url="@ + spec_url_encode(manifest_url)
}

/// The install profile for a manifest, with the four identifiers it draws
/// (`ids[0]`..`ids[3]` in the order the profile uses them).
pub open spec fn mobileconfig_shape(root: PlistNode, link: Seq<char>, display_name: Seq<char>, ids: Seq<Seq<char>>) -> bool {
    let m = dict_of(root);
    let payload = dict_of(m[0].1);
    let content = dict_of(payload[0].1);
    &&& root is Dictionary && keys_are(m, seq![
        "PayloadContent"@, "PayloadDescription"@, "PayloadDisplayName"@, "PayloadIdentifier"@, "PayloadOrganization"@,
        "PayloadRemovalDisallowed"@, "PayloadType"@, "PayloadUUID"@, "PayloadVersion"@,
    ])
    &&& m[0].1 is Dictionary && keys_are(payload, seq![
        "Content"@, "Description"@, "DisplayName"@, "Identifier"@, "PayloadType"@, "PayloadUUID"@, "PayloadVersion"@,
    ])
    &&& payload[0].1 is Dictionary && keys_are(content, seq!["URL"@]) && text_is(content[0].1, link)
    &&& text_is(payload[1].1, "Install app"@) && text_is(payload[2].1, display_name)
    &&& text_is(payload[3].1, "com.ipatool.install."@ + ids[0])
    &&& text_is(payload[4].1, "com.apple.developer.ota-install"@) && text_is(payload[5].1, ids[1])
    &&& payload[6].1 == PlistNode::Integer(1)
    &&& text_is(m[1].1, "Install app via OTA"@) && text_is(m[2].1, display_name)
    &&& text_is(m[3].1, "com.ipatool.config."@ + ids[2]) && text_is(m[4].1, "ipaTool"@)
    &&& m[5].1 == PlistNode::Boolean(false) && text_is(m[6].1, "Configuration"@) && text_is(m[7].1, ids[3])
    &&& m[8].1 == PlistNode::Integer(1)
}

fn prefixed(prefix: &str, rest: &String) -> (r: String)
    ensures
        r@ == prefix@ + rest@,
{
    let mut buf: Vec<char> = Vec::new();
    push_str(&mut buf, prefix);
    push_str(&mut buf, rest.as_str());
    string_from_chars(buf.as_slice())
}

/// The install profile for a manifest URL with the given four identifiers (see
/// [`mobileconfig_shape`]) as XML text, or the writer's error text.
pub fn mobileconfig_with_ids(manifest_url: String, display_name: String, id0: String, id1: String, id2: String, id3: String) -> (r: Result<String, String>)
    ensures
        exists|root: PlistNode| #![trigger xml_text_outcome(root)]
            mobileconfig_shape(
                root,
                itms_link(vstd::utf8::encode_utf8(manifest_url@)),
                display_name@,
                seq![id0@, id1@, id2@, id3@],
            ) && match xml_text_outcome(root) {
                Ok(t) => r matches Ok(s) && s@ == t,
                Err(e) => r matches Err(m) && m@ == e,
            },
{
    let encoded = url_encode(manifest_url.as_str());
    let link = prefixed("itms-services://?action=download-manifest&url=", &encoded);
    let ghost link_text = link@;
    let ghost ids = seq![id0@, id1@, id2@, id3@];
    let mut content: Vec<(String, PlistNode)> = Vec::new();
    content.push(entry("URL", PlistNode::String(link)));

    let mut payload: Vec<(String, PlistNode)> = Vec::new();
    payload.push(entry("Content", PlistNode::Dictionary(content)));
    payload.push(entry("Description", text_node("Install app")));
    payload.push(entry("DisplayName", PlistNode::String(display_name.clone())));
    payload.push(entry("Identifier", PlistNode::String(prefixed("com.ipatool.install.", &id0))));
    payload.push(entry("PayloadType", text_node("com.apple.developer.ota-install")));
    payload.push(entry("PayloadUUID", PlistNode::String(id1)));
    payload.push(entry("PayloadVersion", PlistNode::Integer(1)));

    let mut config: Vec<(String, PlistNode)> = Vec::new();
    config.push(entry("PayloadContent", PlistNode::Dictionary(payload)));
    config.push(entry("PayloadDescription", text_node("Install app via OTA")));
    config.push(entry("PayloadDisplayName", PlistNode::String(display_name)));
    config.push(entry("PayloadIdentifier", PlistNode::String(prefixed("com.ipatool.config.", &id2))));
    config.push(entry("PayloadOrganization", text_node("ipaTool")));
    config.push(entry("PayloadRemovalDisallowed", PlistNode::Boolean(false)));
    config.push(entry("PayloadType", text_node("Configuration")));
    config.push(entry("PayloadUUID", PlistNode::String(id3)));
    config.push(entry("PayloadVersion", PlistNode::Integer(1)));
    let root = PlistNode::Dictionary(config);
    assert(mobileconfig_shape(root, link_text, display_name@, ids));
    xml_text(&root)
}

/// The install profile for a manifest URL (see [`mobileconfig_with_ids`]); its four
/// identifiers come from the system clock.
pub fn generate_mobileconfig(manifest_url: String, display_name: String) -> (r: Result<String, String>)
    ensures
        exists|root: PlistNode, n0: nat, n1: nat, n2: nat, n3: nat| #![trigger xml_text_outcome(root), clock_uuid_text(n0), clock_uuid_text(n1), clock_uuid_text(n2), clock_uuid_text(n3)]
            mobileconfig_shape(
                root,
                itms_link(vstd::utf8::encode_utf8(manifest_url@)),
                display_name@,
                seq![clock_uuid_text(n0), clock_uuid_text(n1), clock_uuid_text(n2), clock_uuid_text(n3)],
            ) && match xml_text_outcome(root) {
                Ok(t) => r matches Ok(s) && s@ == t,
                Err(e) => r matches Err(m) && m@ == e,
            },
{
    let id0 = pseudo_uuid();
    let id1 = pseudo_uuid();
    let id2 = pseudo_uuid();
    let id3 = pseudo_uuid();
    let ghost n0 = choose|n: nat| id0@ == clock_uuid_text(n);
    let ghost n1 = choose|n: nat| id1@ == clock_uuid_text(n);
    let ghost n2 = choose|n: nat| id2@ == clock_uuid_text(n);
    let ghost n3 = choose|n: nat| id3@ == clock_uuid_text(n);
    let ghost ids = seq![id0@, id1@, id2@, id3@];
    assert(ids == seq![clock_uuid_text(n0), clock_uuid_text(n1), clock_uuid_text(n2), clock_uuid_text(n3)]);
    let r = mobileconfig_with_ids(manifest_url, display_name, id0, id1, id2, id3);
    let ghost root = choose|root: PlistNode| #![trigger xml_text_outcome(root)]
        mobileconfig_shape(root, itms_link(vstd::utf8::encode_utf8(manifest_url@)), display_name@, ids) && match xml_text_outcome(root) {
            Ok(t) => r matches Ok(s) && s@ == t,
            Err(e) => r matches Err(m) && m@ == e,
        };
    assert(clock_uuid_text(n0) == ids[0]);
    r
}

} // verus!
