//! Locating the app bundle of an IPA and reading its entries by name.
use vstd::prelude::*;
use crate::archive::{list_entries, read_entry_at, zip_listing, zip_entry_content};
use crate::property_list::{PlistNode, decode_plist, plist_decoded};
use crate::error::SigError;
use crate::text::{chars_of, string_from_chars, starts_with, ends_with, seq_starts_with, seq_ends_with};

verus! {

/// Whether a name is an app bundle directory entry: `Payload/<x>.app/`.
pub open spec fn is_bundle_dir_entry(name: Seq<char>) -> bool {
    seq_starts_with(name, "Payload/"@) && seq_ends_with(name, ".app/"@)
}

/// The first position at or after `i` where `c` occurs in `s`.
pub open spec fn char_position_from(s: Seq<char>, c: char, i: int) -> Option<int>
    decreases s.len() - i,
{
    if i < 0 || i >= s.len() {
        None
    } else if s[i] == c {
        Some(i)
    } else {
        char_position_from(s, c, i + 1)
    }
}

/// For a name `Payload/<first>/...`, the segment `<first>` when it ends with `.app`.
pub open spec fn bundle_of_nested_entry(name: Seq<char>) -> Option<Seq<char>> {
    if seq_starts_with(name, "Payload/"@) {
        let rest = name.subrange(8, name.len() as int);
        match char_position_from(rest, '/', 0) {
            Some(k) => if seq_ends_with(rest.subrange(0, k), ".app"@) {
                Some(rest.subrange(0, k))
            } else {
                None
            },
            None => None,
        }
    } else {
        None
    }
}

/// The bundle named by the first bundle directory entry at or after `i`.
pub open spec fn bundle_dir_from(names: Seq<Seq<char>>, i: int) -> Option<Seq<char>>
    decreases names.len() - i,
{
    if i < 0 || i >= names.len() {
        None
    } else if is_bundle_dir_entry(names[i]) {
        Some(names[i].subrange(8, names[i].len() - 1))
    } else {
        bundle_dir_from(names, i + 1)
    }
}

/// The bundle named by the first nested entry at or after `i`.
pub open spec fn bundle_nested_from(names: Seq<Seq<char>>, i: int) -> Option<Seq<char>>
    decreases names.len() - i,
{
    if i < 0 || i >= names.len() {
        None
    } else if bundle_of_nested_entry(names[i]) is Some {
        bundle_of_nested_entry(names[i])
    } else {
        bundle_nested_from(names, i + 1)
    }
}

/// The app bundle (`<name>.app`) of an IPA with these entry names: the first
/// `Payload/<name>.app/` directory entry, else the first entry below
/// `Payload/<name>.app/`.
pub open spec fn spec_app_bundle(names: Seq<Seq<char>>) -> Option<Seq<char>> {
    match bundle_dir_from(names, 0) {
        Some(b) => Some(b),
        None => bundle_nested_from(names, 0),
    }
}

/// The first position of `c` in `s` (at or after `from`).
pub fn find_char(s: &[char], c: char, from: usize) -> (r: Option<usize>)
    ensures
        match char_position_from(s@, c, from as int) {
            Some(k) => r matches Some(u) && u as int == k,
            None => r is None,
        },
        r matches Some(u) ==> from <= u < s@.len() && s@[u as int] == c,
{
    let mut i = from;
    if i > s.len() {
        return None;
    }
    while i < s.len()
        invariant
            from <= i <= s@.len(),
            char_position_from(s@, c, from as int) == char_position_from(s@, c, i as int),
        decreases s@.len() - i,
    {
        if s[i] == c {
            return Some(i);
        }
        i = i + 1;
    }
    None
}

/// The characters `s[start..end]`.
pub fn slice_chars(s: &[char], start: usize, end: usize) -> (r: Vec<char>)
    requires
        start <= end <= s@.len(),
    ensures
        r@ == s@.subrange(start as int, end as int),
{
    let mut out: Vec<char> = Vec::new();
    let mut i = start;
    while i < end
        invariant
            start <= i <= end <= s@.len(),
            out@ == s@.subrange(start as int, i as int),
        decreases end - i,
    {
        out.push(s[i]);
        i = i + 1;
        assert(out@ =~= s@.subrange(start as int, i as int));
    }
    out
}

fn nested_bundle(name: &[char]) -> (r: Option<Vec<char>>)
    ensures
        match bundle_of_nested_entry(name@) {
            Some(b) => r matches Some(v) && v@ == b,
            None => r is None,
        },
{
    let prefix = chars_of("Payload/");
    proof { reveal_strlit("Payload/"); }
    if !starts_with(name, prefix.as_slice()) {
        return None;
    }
    let rest = slice_chars(name, 8, name.len());
    let ghost rs = name@.subrange(8, name@.len() as int);
    match find_char(rest.as_slice(), '/', 0) {
        Some(k) => {
            let first = slice_chars(rest.as_slice(), 0, k);
            let suffix = chars_of(".app");
            if ends_with(first.as_slice(), suffix.as_slice()) {
                Some(first)
            } else {
                None
            }
        },
        None => None,
    }
}

/// The app bundle of an IPA with these entry names (see [`spec_app_bundle`]).
pub fn app_bundle_of(names: &Vec<String>) -> (r: Option<String>)
    ensures
        match spec_app_bundle(names.deep_view()) {
            Some(b) => r matches Some(s) && s@ == b,
            None => r is None,
        },
{
    let ghost ns = names.deep_view();
    let prefix = chars_of("Payload/");
    let suffix = chars_of(".app/");
    proof {
        reveal_strlit("Payload/");
        reveal_strlit(".app/");
    }
    let mut i: usize = 0;
    while i < names.len()
        invariant
            i <= ns.len(),
            ns == names.deep_view(),
            prefix@ == "Payload/"@,
            suffix@ == ".app/"@,
            bundle_dir_from(ns, 0) == bundle_dir_from(ns, i as int),
        decreases ns.len() - i,
    {
        let name = chars_of(names[i].as_str());
        if starts_with(name.as_slice(), prefix.as_slice()) && ends_with(name.as_slice(), suffix.as_slice()) {
            proof {
                reveal_strlit("Payload/");
                reveal_strlit(".app/");
                if name@.len() == 8 {
                    assert(name@.subrange(0, 8)[3] == name@[3]);
                    assert(name@.subrange(3, 8)[0] == name@[3]);
                }
            }
            let inner = slice_chars(name.as_slice(), 8, name.len() - 1);
            return Some(string_from_chars(inner.as_slice()));
        }
        i = i + 1;
    }
    let mut j: usize = 0;
    while j < names.len()
        invariant
            j <= ns.len(),
            ns == names.deep_view(),
            bundle_dir_from(ns, 0) is None,
            bundle_nested_from(ns, 0) == bundle_nested_from(ns, j as int),
        decreases ns.len() - j,
    {
        let name = chars_of(names[j].as_str());
        match nested_bundle(name.as_slice()) {
            Some(b) => {
                return Some(string_from_chars(b.as_slice()));
            },
            None => {},
        }
        j = j + 1;
    }
    None
}

/// The app bundle (`<name>.app`) of an IPA held in memory (see [`spec_app_bundle`]);
/// fails when the archive cannot be listed or has no bundle.
pub fn find_app_bundle_name(archive: &[u8]) -> (r: Result<String, SigError>)
    ensures
        match zip_listing(archive@) {
            Err(e) => r matches Err(SigError::Archive(m)) && m@ == e,
            Ok(names) => match spec_app_bundle(names) {
                Some(b) => r matches Ok(s) && s@ == b,
                None => r matches Err(SigError::NoAppBundle),
            },
        },
{
    let names = match list_entries(archive) {
        Ok(n) => n,
        Err(e) => return Err(SigError::Archive(e)),
    };
    match app_bundle_of(&names) {
        Some(b) => Ok(b),
        None => Err(SigError::NoAppBundle),
    }
}

/// The position of `name` among the entry names.
pub open spec fn name_position(names: Seq<Seq<char>>, name: Seq<char>) -> Option<int> {
    crate::injection::spec_position_from(names, name, 0)
}

/// The bytes of the entry called `name`: `None` when the archive cannot be listed, has
/// no such entry, or the entry cannot be read.
pub open spec fn spec_entry_named(archive: Seq<u8>, name: Seq<char>) -> Option<Seq<u8>> {
    match zip_listing(archive) {
        Ok(names) => match name_position(names, name) {
            Some(k) => match zip_entry_content(archive, k) {
                Ok(d) => Some(d),
                Err(_) => None,
            },
            None => None,
        },
        Err(_) => None,
    }
}

/// Reads the entry called `name` (see [`spec_entry_named`]).
pub fn read_zip_entry_bytes(archive: &[u8], name: &String) -> (r: Option<Vec<u8>>)
    ensures
        match spec_entry_named(archive@, name@) {
            Some(d) => r matches Some(v) && v@ == d,
            None => r is None,
        },
{
    let names = match list_entries(archive) {
        Ok(n) => n,
        Err(_) => return None,
    };
    let mut i: usize = 0;
    while i < names.len()
        invariant
            i <= names@.len(),
            zip_listing(archive@) matches Ok(ns) && ns == names.deep_view(),
            name_position(names.deep_view(), name@) == crate::injection::spec_position_from(names.deep_view(), name@, i as int),
        decreases names@.len() - i,
    {
        if names[i] == *name {
            return match read_entry_at(archive, i) {
                Ok(d) => Some(d),
                Err(_) => None,
            };
        }
        i = i + 1;
    }
    None
}

/// The property list stored in the entry called `name`, when it can be read and parsed.
pub open spec fn spec_plist_named(archive: Seq<u8>, name: Seq<char>) -> Option<PlistNode> {
    match spec_entry_named(archive, name) {
        Some(d) => match plist_decoded(d) {
            Ok(n) => Some(n),
            Err(_) => None,
        },
        None => None,
    }
}

/// Reads and parses the property list stored in the entry called `name`.
pub fn read_plist_from_zip(archive: &[u8], name: &String) -> (r: Option<PlistNode>)
    ensures
        r == spec_plist_named(archive@, name@),
{
    match read_zip_entry_bytes(archive, name) {
        Some(d) => match decode_plist(d.as_slice()) {
            Ok(n) => Some(n),
            Err(_) => None,
        },
        None => None,
    }
}

} // verus!
