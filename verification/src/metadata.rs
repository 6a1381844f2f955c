//! App metadata and icon of an IPA, read from `iTunesMetadata.plist`, the bundle's
//! `Info.plist` and its PNG icons.
use vstd::prelude::*;
use crate::archive::{list_entries, zip_listing};
use crate::bundle::{app_bundle_of, read_zip_entry_bytes, read_plist_from_zip, spec_app_bundle, spec_entry_named, spec_plist_named};
use crate::inspection::{bundle_path, in_bundle};
use crate::property_list::{PlistNode, node_flag, node_string, plist_bool_value, plist_string_value};
use crate::text::{chars_of, contains_run, ends_with, opt_text, push_str, seq_contains_run, seq_ends_with, string_from_chars};

verus! {

/// The metadata of an app as an IPA records it.
#[derive(Debug, Clone)]
pub struct IpaMetadata {
    pub item_id: Option<String>,
    pub item_name: Option<String>,
    pub bundle_display_name: Option<String>,
    pub bundle_id: Option<String>,
    pub bundle_short_version: Option<String>,
    pub bundle_version: Option<String>,
    pub artist_name: Option<String>,
    pub artist_id: Option<String>,
    pub genre: Option<String>,
    pub genre_id: Option<String>,
    pub release_date: Option<String>,
    pub copyright: Option<String>,
    pub icon_url: Option<String>,
    pub has_iap: Option<bool>,
    pub min_os_version: Option<String>,
    pub primary_icon_bytes: Option<Vec<u8>>,
}

/// Whether the bytes look like a PNG image: more than eight bytes, starting with the
/// PNG signature `89 50 4E 47`.
pub open spec fn is_png(d: Seq<u8>) -> bool {
    d.len() > 8 && d[0] == 0x89 && d[1] == 0x50 && d[2] == 0x4E && d[3] == 0x47
}

/// The icon file suffixes under `AppIcon60x60/`, most wanted first.
pub open spec fn icon_suffixes() -> Seq<Seq<char>> {
    seq![
        "@3x~ipad.png"@, "@3x~iphone.png"@, "@3x.png"@, "@2x~ipad.png"@, "@2x~iphone.png"@, "@2x.png"@,
        "@1x~ipad.png"@, "@1x~iphone.png"@, "@1x.png"@, ".png"@,
    ]
}

/// The first PNG among the preferred icons of the bundle, trying suffix `k` and later.
pub open spec fn spec_preferred_icon_from(archive: Seq<u8>, bundle: Seq<char>, k: int) -> Option<Seq<u8>>
    decreases icon_suffixes().len() - k,
{
    if k < 0 || k >= icon_suffixes().len() {
        None
    } else {
        match spec_entry_named(archive, in_bundle(bundle, "AppIcon60x60/"@ + icon_suffixes()[k])) {
            Some(d) => if is_png(d) { Some(d) } else { spec_preferred_icon_from(archive, bundle, k + 1) },
            None => spec_preferred_icon_from(archive, bundle, k + 1),
        }
    }
}

/// The largest PNG among the entries whose names contain `AppIcon` and end in `.png`
/// (the first of equal size wins).
pub open spec fn spec_largest_icon(archive: Seq<u8>, names: Seq<Seq<char>>) -> Option<Seq<u8>>
    decreases names.len(),
{
    if names.len() == 0 {
        None
    } else {
        let best = spec_largest_icon(archive, names.drop_last());
        let n = names.last();
        if seq_contains_run(n, "AppIcon"@) && seq_ends_with(n, ".png"@) {
            match spec_entry_named(archive, n) {
                Some(d) => if is_png(d) && d.len() > (match best { Some(b) => b.len(), None => 0 }) {
                    Some(d)
                } else {
                    best
                },
                None => best,
            }
        } else {
            best
        }
    }
}

/// The PNG an entry holds when its name contains `AppIcon` and ends in `.png` and its
/// bytes start with the PNG signature (more than 8 bytes).
pub open spec fn app_icon_png(archive: Seq<u8>, name: Seq<char>) -> Option<Seq<u8>> {
    if seq_contains_run(name, "AppIcon"@) && seq_ends_with(name, ".png"@) {
        match spec_entry_named(archive, name) {
            Some(d) => if d.len() > 8 && d[0] == 0x89 && d[1] == 0x50 && d[2] == 0x4E && d[3] == 0x47 { Some(d) } else { None },
            None => None,
        }
    } else {
        None
    }
}

/// The largest icon is one of the `AppIcon` PNGs among the names, at least as large as
/// every other one (the first of the largest); there is none exactly when no name holds
/// such a PNG.
pub proof fn lemma_largest_icon(archive: Seq<u8>, names: Seq<Seq<char>>)
    ensures
        spec_largest_icon(archive, names) matches Some(d) ==> exists|k: int| 0 <= k < names.len()
            && #[trigger] app_icon_png(archive, names[k]) == Some(d),
        forall|k: int| 0 <= k < names.len() && (#[trigger] app_icon_png(archive, names[k])) is Some ==> (
            spec_largest_icon(archive, names) matches Some(d) && app_icon_png(archive, names[k])->Some_0.len() <= d.len()),
        spec_largest_icon(archive, names) is None ==> forall|k: int| 0 <= k < names.len() ==> #[trigger] app_icon_png(archive, names[k]) is None,
    decreases names.len(),
{
    if names.len() > 0 {
        let rest = names.drop_last();
        lemma_largest_icon(archive, rest);
        let best = spec_largest_icon(archive, rest);
        let last = names.len() - 1;
        assert(names[last] == names.last());
        assert forall|k: int| 0 <= k < rest.len() implies names[k] == #[trigger] rest[k] by {}
        if let Some(d) = spec_largest_icon(archive, names) {
            if best == Some(d) && !(app_icon_png(archive, names.last()) == Some(d)) {
                let k = choose|k: int| 0 <= k < rest.len() && #[trigger] app_icon_png(archive, rest[k]) == Some(d);
                assert(names[k] == rest[k]);
            }
        }
        assert forall|k: int| 0 <= k < names.len() && (#[trigger] app_icon_png(archive, names[k])) is Some implies (
            spec_largest_icon(archive, names) matches Some(d) && app_icon_png(archive, names[k])->Some_0.len() <= d.len()) by {
            if k < rest.len() {
                assert(names[k] == rest[k]);
                assert(app_icon_png(archive, rest[k]) is Some);
            }
        }
        assert forall|k: int| 0 <= k < names.len() && spec_largest_icon(archive, names) is None implies #[trigger] app_icon_png(archive, names[k]) is None by {
            if k < rest.len() {
                assert(names[k] == rest[k]);
            }
        }
    }
}

/// The app icon of the bundle: the first preferred icon, else the largest icon.
pub open spec fn spec_app_icon(archive: Seq<u8>, names: Seq<Seq<char>>, bundle: Seq<char>) -> Option<Seq<u8>> {
    match spec_preferred_icon_from(archive, bundle, 0) {
        Some(d) => Some(d),
        None => spec_largest_icon(archive, names),
    }
}

fn icon_suffix(k: usize) -> (r: &'static str)
    requires
        k < 10,
    ensures
        r@ == icon_suffixes()[k as int],
{
    if k == 0 { "@3x~ipad.png" }
    else if k == 1 { "@3x~iphone.png" }
    else if k == 2 { "@3x.png" }
    else if k == 3 { "@2x~ipad.png" }
    else if k == 4 { "@2x~iphone.png" }
    else if k == 5 { "@2x.png" }
    else if k == 6 { "@1x~ipad.png" }
    else if k == 7 { "@1x~iphone.png" }
    else if k == 8 { "@1x.png" }
    else { ".png" }
}

fn png(d: &Vec<u8>) -> (r: bool)
    ensures
        r == is_png(d@),
{
    d.len() > 8 && d[0] == 0x89 && d[1] == 0x50 && d[2] == 0x4E && d[3] == 0x47
}

/// The first preferred icon of the bundle that is a PNG (see [`spec_preferred_icon_from`]).
pub fn preferred_app_icon(archive: &[u8], app_bundle_name: &String) -> (r: Option<Vec<u8>>)
    ensures
        match spec_preferred_icon_from(archive@, app_bundle_name@, 0) {
            Some(d) => r matches Some(v) && v@ == d,
            None => r is None,
        },
{
    let mut k: usize = 0;
    while k < 10
        invariant
            k <= 10,
            icon_suffixes().len() == 10,
            spec_preferred_icon_from(archive@, app_bundle_name@, 0) == spec_preferred_icon_from(archive@, app_bundle_name@, k as int),
        decreases 10 - k,
    {
        let mut buf: Vec<char> = Vec::new();
        push_str(&mut buf, "AppIcon60x60/");
        push_str(&mut buf, icon_suffix(k));
        let rest = string_from_chars(buf.as_slice());
        let path = bundle_path(app_bundle_name, rest.as_str());
        match read_zip_entry_bytes(archive, &path) {
            Some(d) => {
                if png(&d) {
                    return Some(d);
                }
            },
            None => {},
        }
        k = k + 1;
    }
    None
}

/// The largest icon among the archive's entries (see [`spec_largest_icon`]).
pub fn largest_app_icon(archive: &[u8], names: &Vec<String>) -> (r: Option<Vec<u8>>)
    ensures
        match spec_largest_icon(archive@, names.deep_view()) {
            Some(d) => r matches Some(v) && v@ == d,
            None => r is None,
        },
{
    let marker = chars_of("AppIcon");
    let suffix = chars_of(".png");
    let mut best: Option<Vec<u8>> = None;
    let mut best_size: usize = 0;
    let mut i: usize = 0;
    while i < names.len()
        invariant
            i <= names@.len(),
            marker@ == "AppIcon"@,
            suffix@ == ".png"@,
            match spec_largest_icon(archive@, names.deep_view().subrange(0, i as int)) {
                Some(d) => best matches Some(v) && v@ == d && best_size == d.len(),
                None => best is None && best_size == 0,
            },
        decreases names@.len() - i,
    {
        assert(names.deep_view().subrange(0, i + 1).drop_last() =~= names.deep_view().subrange(0, i as int));
        let name = chars_of(names[i].as_str());
        if contains_run(name.as_slice(), marker.as_slice()) && ends_with(name.as_slice(), suffix.as_slice()) {
            match read_zip_entry_bytes(archive, &names[i]) {
                Some(d) => {
                    if png(&d) && d.len() > best_size {
                        best_size = d.len();
                        best = Some(d);
                    }
                },
                None => {},
            }
        }
        i = i + 1;
    }
    assert(names.deep_view().subrange(0, names@.len() as int) =~= names.deep_view());
    best
}

/// The app icon of the bundle: the first preferred icon, else the largest one (see
/// [`spec_app_icon`]).
pub fn extract_largest_app_icon_from_zip(archive: &[u8], names: &Vec<String>, app_bundle_name: &String) -> (r: Option<Vec<u8>>)
    ensures
        match spec_app_icon(archive@, names.deep_view(), app_bundle_name@) {
            Some(d) => r matches Some(v) && v@ == d,
            None => r is None,
        },
{
    match preferred_app_icon(archive, app_bundle_name) {
        Some(d) => Some(d),
        None => largest_app_icon(archive, names),
    }
}

/// The app bundle of an IPA held in memory, when it can be listed and has one.
pub fn find_app_bundle_in_zip(archive: &[u8]) -> (r: Option<String>)
    ensures
        match zip_listing(archive@) {
            Ok(names) => opt_text(r) == crate::bundle::spec_app_bundle(names),
            Err(_) => r is None,
        },
{
    match list_entries(archive) {
        Ok(names) => app_bundle_of(&names),
        Err(_) => None,
    }
}

/// The app icon of an IPA held in memory (see [`spec_app_icon`]); none when the archive
/// cannot be listed or has no bundle.
pub fn app_icon_from_bytes(ipa_bytes: &[u8]) -> (r: Option<Vec<u8>>)
    ensures
        match zip_listing(ipa_bytes@) {
            Ok(names) => match spec_app_bundle(names) {
                Some(bundle) => match spec_app_icon(ipa_bytes@, names, bundle) {
                    Some(d) => r matches Some(v) && v@ == d,
                    None => r is None,
                },
                None => r is None,
            },
            Err(_) => r is None,
        },
{
    let names = match list_entries(ipa_bytes) {
        Ok(n) => n,
        Err(_) => return None,
    };
    app_icon_of_listed(ipa_bytes, &names)
}

/// The app icon of an IPA whose entry names are `names` (see [`spec_app_icon`]); none when
/// it has no bundle.
pub fn app_icon_of_listed(ipa_bytes: &[u8], names: &Vec<String>) -> (r: Option<Vec<u8>>)
    ensures
        match spec_app_bundle(names.deep_view()) {
            Some(bundle) => match spec_app_icon(ipa_bytes@, names.deep_view(), bundle) {
                Some(d) => r matches Some(v) && v@ == d,
                None => r is None,
            },
            None => r is None,
        },
{
    match app_bundle_of(names) {
        Some(b) => extract_largest_app_icon_from_zip(ipa_bytes, names, &b),
        None => None,
    }
}

/// The app icon of an IPA: the bundle's first preferred icon, else its largest `AppIcon`
/// PNG (see [`spec_app_icon`]); empty when the archive cannot be listed, has no bundle or
/// no such icon.
pub fn extract_icon(ipa_bytes: &[u8]) -> (r: Vec<u8>)
    ensures
        match zip_listing(ipa_bytes@) {
            Ok(names) => match spec_app_bundle(names) {
                Some(bundle) => match spec_app_icon(ipa_bytes@, names, bundle) {
                    Some(d) => r@ == d,
                    None => r@.len() == 0,
                },
                None => r@.len() == 0,
            },
            Err(_) => r@.len() == 0,
        },
{
    match app_icon_from_bytes(ipa_bytes) {
        Some(d) => d,
        None => Vec::new(),
    }
}

/// The text under `key` of an optional dictionary.
pub open spec fn maybe_string(node: Option<PlistNode>, key: Seq<char>) -> Option<Seq<char>> {
    match node {
        Some(n) => node_string(n, key),
        None => None,
    }
}

/// The first of two optional texts that is set.
pub open spec fn or_else(a: Option<Seq<char>>, b: Option<Seq<char>>) -> Option<Seq<char>> {
    match a {
        Some(x) => Some(x),
        None => b,
    }
}

/// The bundle's `Info.plist`, when the IPA has a bundle and the file parses.
pub open spec fn spec_bundle_info(archive: Seq<u8>, names: Seq<Seq<char>>) -> Option<PlistNode> {
    match spec_app_bundle(names) {
        Some(bundle) => spec_plist_named(archive, in_bundle(bundle, "Info.plist"@)),
        None => None,
    }
}

/// How the metadata of an IPA follows from its `iTunesMetadata.plist`, its bundle's
/// `Info.plist` (which fills in what the first lacks) and its icons.
pub open spec fn metadata_of(m: IpaMetadata, archive: Seq<u8>, names: Seq<Seq<char>>) -> bool {
    let itunes = spec_plist_named(archive, "iTunesMetadata.plist"@);
    let info = spec_bundle_info(archive, names);
    &&& opt_text(m.item_id) == maybe_string(itunes, "itemId"@)
    &&& opt_text(m.item_name) == maybe_string(itunes, "itemName"@)
    &&& opt_text(m.bundle_display_name) == or_else(
        maybe_string(itunes, "bundleDisplayName"@),
        or_else(maybe_string(info, "CFBundleDisplayName"@), maybe_string(info, "CFBundleName"@)),
    )
    &&& opt_text(m.bundle_id) == or_else(maybe_string(itunes, "softwareVersionBundleId"@), maybe_string(info, "CFBundleIdentifier"@))
    &&& opt_text(m.bundle_short_version) == or_else(
        maybe_string(itunes, "bundleShortVersionString"@),
        maybe_string(info, "CFBundleShortVersionString"@),
    )
    &&& opt_text(m.bundle_version) == or_else(maybe_string(itunes, "bundleVersion"@), maybe_string(info, "CFBundleVersion"@))
    &&& opt_text(m.artist_name) == maybe_string(itunes, "artistName"@)
    &&& opt_text(m.artist_id) == maybe_string(itunes, "artistId"@)
    &&& opt_text(m.genre) == maybe_string(itunes, "genre"@)
    &&& opt_text(m.genre_id) == maybe_string(itunes, "genreId"@)
    &&& opt_text(m.release_date) == maybe_string(itunes, "releaseDate"@)
    &&& opt_text(m.copyright) == maybe_string(itunes, "copyright"@)
    &&& opt_text(m.icon_url) == maybe_string(itunes, "softwareIcon57x57URL"@)
    &&& m.has_iap == (match itunes {
        Some(n) => node_flag(n, "hasOrEverHasHadIAP"@),
        None => None,
    })
    &&& opt_text(m.min_os_version) == maybe_string(info, "MinimumOSVersion"@)
    &&& match spec_app_bundle(names) {
        Some(bundle) => match spec_app_icon(archive, names, bundle) {
            Some(d) => m.primary_icon_bytes matches Some(v) && v@ == d,
            None => m.primary_icon_bytes is None,
        },
        None => m.primary_icon_bytes is None,
    }
}

fn field(node: &Option<PlistNode>, key: &str) -> (r: Option<String>)
    ensures
        opt_text(r) == maybe_string(*node, key@),
{
    match node {
        Some(n) => plist_string_value(n, key),
        None => None,
    }
}

fn first_of(a: Option<String>, b: Option<String>) -> (r: Option<String>)
    ensures
        opt_text(r) == or_else(opt_text(a), opt_text(b)),
{
    match a {
        Some(x) => Some(x),
        None => b,
    }
}

/// The metadata of an IPA (see [`metadata_of`]); none when the archive cannot be listed,
/// or when it names neither a bundle id, an item name nor a display name.
pub fn extract_itunes_metadata_from_bytes(bytes: &[u8]) -> (r: Option<IpaMetadata>)
    ensures
        match zip_listing(bytes@) {
            Err(_) => r is None,
            Ok(names) => match r {
                Some(m) => metadata_of(m, bytes@, names) && (m.bundle_id is Some || m.item_name is Some
                    || m.bundle_display_name is Some),
                None => forall|m: IpaMetadata| #[trigger] metadata_of(m, bytes@, names) ==> (m.bundle_id is None
                    && m.item_name is None && m.bundle_display_name is None),
            },
        },
{
    let names = match list_entries(bytes) {
        Ok(n) => n,
        Err(_) => return None,
    };
    let itunes_name = string_from_chars(chars_of("iTunesMetadata.plist").as_slice());
    let itunes = read_plist_from_zip(bytes, &itunes_name);
    let bundle = app_bundle_of(&names);
    let (info, icon) = match &bundle {
        Some(b) => {
            let path = bundle_path(b, "Info.plist");
            (read_plist_from_zip(bytes, &path), extract_largest_app_icon_from_zip(bytes, &names, b))
        },
        None => (None, None),
    };
    let display = first_of(field(&info, "CFBundleDisplayName"), field(&info, "CFBundleName"));
    let has_iap = match &itunes {
        Some(n) => plist_bool_value(n, "hasOrEverHasHadIAP"),
        None => None,
    };
    let metadata = IpaMetadata {
        item_id: field(&itunes, "itemId"),
        item_name: field(&itunes, "itemName"),
        bundle_display_name: first_of(field(&itunes, "bundleDisplayName"), display),
        bundle_id: first_of(field(&itunes, "softwareVersionBundleId"), field(&info, "CFBundleIdentifier")),
        bundle_short_version: first_of(field(&itunes, "bundleShortVersionString"), field(&info, "CFBundleShortVersionString")),
        bundle_version: first_of(field(&itunes, "bundleVersion"), field(&info, "CFBundleVersion")),
        artist_name: field(&itunes, "artistName"),
        artist_id: field(&itunes, "artistId"),
        genre: field(&itunes, "genre"),
        genre_id: field(&itunes, "genreId"),
        release_date: field(&itunes, "releaseDate"),
        copyright: field(&itunes, "copyright"),
        icon_url: field(&itunes, "softwareIcon57x57URL"),
        has_iap,
        min_os_version: field(&info, "MinimumOSVersion"),
        primary_icon_bytes: icon,
    };
    if metadata.bundle_id.is_none() && metadata.item_name.is_none() && metadata.bundle_display_name.is_none() {
        return None;
    }
    Some(metadata)
}

/// The name and bundle id an IPA's `Info.plist` gives: its display name, else its bundle
/// name, when not empty; none when the IPA has no bundle, its `Info.plist` cannot be read,
/// or the name is empty.
pub open spec fn spec_basic_metadata(archive: Seq<u8>, names: Seq<Seq<char>>) -> Option<(Seq<char>, Option<Seq<char>>)> {
    let info = spec_bundle_info(archive, names);
    let name = match or_else(maybe_string(info, "CFBundleDisplayName"@), maybe_string(info, "CFBundleName"@)) {
        Some(n) => n,
        None => Seq::empty(),
    };
    if info is None || name.len() == 0 {
        None
    } else {
        Some((name, maybe_string(info, "CFBundleIdentifier"@)))
    }
}

/// The name and bundle id of an IPA held in memory (see [`spec_basic_metadata`]); none
/// when the archive cannot be listed.
pub fn basic_metadata_from_bytes(bytes: &[u8]) -> (r: Option<(String, Option<String>)>)
    ensures
        match zip_listing(bytes@) {
            Err(_) => r is None,
            Ok(names) => match spec_basic_metadata(bytes@, names) {
                Some(found) => r matches Some(pair) && pair.0@ == found.0 && opt_text(pair.1) == found.1,
                None => r is None,
            },
        },
{
    let names = match list_entries(bytes) {
        Ok(n) => n,
        Err(_) => return None,
    };
    let info = match app_bundle_of(&names) {
        Some(b) => {
            let path = bundle_path(&b, "Info.plist");
            read_plist_from_zip(bytes, &path)
        },
        None => None,
    };
    if info.is_none() {
        return None;
    }
    let name = match first_of(field(&info, "CFBundleDisplayName"), field(&info, "CFBundleName")) {
        Some(n) => n,
        None => String::new(),
    };
    if chars_of(name.as_str()).len() == 0 {
        return None;
    }
    Some((name, field(&info, "CFBundleIdentifier")))
}

} // verus!
