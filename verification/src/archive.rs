//! ZIP archives as sequences of named entries, read and written through the
//! `zip` crate.
use vstd::prelude::*;
use std::io::{Read, Write};
use vstd::utf8::encode_utf8;

verus! {

/// The entry names of the archive, in central-directory order, or the reader's error.
pub uninterp spec fn zip_listing(archive: Seq<u8>) -> Result<Seq<Seq<char>>, Seq<char>>;

/// The uncompressed bytes of entry `index`, or the reader's error.
pub uninterp spec fn zip_entry_content(archive: Seq<u8>, index: int) -> Result<Seq<u8>, Seq<char>>;

/// Every entry of the archive as (name, uncompressed bytes), in order, or the reader's error.
pub uninterp spec fn zip_contents(archive: Seq<u8>) -> Result<Seq<(Seq<char>, Seq<u8>)>, Seq<char>>;

/// The archive that stores the given entries uncompressed, in order, or the writer's error.
pub uninterp spec fn zip_stored(entries: Seq<(Seq<char>, Seq<u8>)>) -> Result<Seq<u8>, Seq<char>>;

/// The number of entries of the archive, or the reader's error when it cannot be opened.
pub uninterp spec fn zip_entry_count(archive: Seq<u8>) -> Result<nat, Seq<char>>;

/// The name of entry `index`, or the reader's error.
pub uninterp spec fn zip_entry_name(archive: Seq<u8>, index: int) -> Result<Seq<char>, Seq<char>>;

/// The names of a list of entries.
pub open spec fn entry_names(entries: Seq<(Seq<char>, Seq<u8>)>) -> Seq<Seq<char>> {
    Seq::new(entries.len(), |i: int| entries[i].0)
}

/// Lists the entry names of a ZIP archive held in memory.
///
/// Trusted: opens a `zip::ZipArchive` over the bytes and takes `by_index(i).name()` for
/// every index.  The names are distinct because the reader keys its entries by name
/// (an `IndexMap`), which is what the second clause states.
#[verifier::external_body]
pub fn list_entries(archive: &[u8]) -> (r: Result<Vec<String>, String>)
    ensures
        match zip_listing(archive@) {
            Ok(names) => r matches Ok(v) && v.deep_view() == names,
            Err(e) => r matches Err(m) && m@ == e,
        },
        r matches Ok(v) ==> v.deep_view().no_duplicates(),
{
    let mut zip = zip::ZipArchive::new(std::io::Cursor::new(archive)).map_err(|e| e.to_string())?;
    (0..zip.len())
        .map(|i| zip.by_index(i).map(|f| f.name().to_string()).map_err(|e| e.to_string()))
        .collect()
}

/// Reads the uncompressed bytes of entry `index` of a ZIP archive held in memory.
///
/// Trusted: `zip::ZipArchive::new`, `by_index(index)` and `read_to_end`; an index past the
/// last entry is an error (`FileNotFound`), which the second clause states.
#[verifier::external_body]
pub fn read_entry_at(archive: &[u8], index: usize) -> (r: Result<Vec<u8>, String>)
    ensures
        match zip_entry_content(archive@, index as int) {
            Ok(data) => r matches Ok(v) && v@ == data,
            Err(e) => r matches Err(m) && m@ == e,
        },
        zip_listing(archive@) matches Ok(names) && index >= names.len() ==> r is Err,
{
    let mut zip = zip::ZipArchive::new(std::io::Cursor::new(archive)).map_err(|e| e.to_string())?;
    let mut file = zip.by_index(index).map_err(|e| e.to_string())?;
    let mut data = Vec::new();
    file.read_to_end(&mut data).map_err(|e| e.to_string())?;
    Ok(data)
}

/// Counts the entries of a ZIP archive held in memory.
///
/// Trusted: `zip::ZipArchive::new` and `len`; the outcome depends on the bytes alone.
#[verifier::external_body]
pub fn entry_count(archive: &[u8]) -> (r: Result<usize, String>)
    ensures
        match zip_entry_count(archive@) {
            Ok(n) => r matches Ok(c) && c == n,
            Err(e) => r matches Err(m) && m@ == e,
        },
{
    zip::ZipArchive::new(std::io::Cursor::new(archive)).map(|zip| zip.len()).map_err(|e| e.to_string())
}

/// The name of entry `index` of a ZIP archive held in memory.
///
/// Trusted: `zip::ZipArchive::new`, `by_index(index)` and `name`; the outcome depends on
/// the bytes and the index alone.
#[verifier::external_body]
pub fn entry_name_at(archive: &[u8], index: usize) -> (r: Result<String, String>)
    ensures
        match zip_entry_name(archive@, index as int) {
            Ok(n) => r matches Ok(v) && v@ == n,
            Err(e) => r matches Err(m) && m@ == e,
        },
{
    let mut zip = zip::ZipArchive::new(std::io::Cursor::new(archive)).map_err(|e| e.to_string())?;
    let file = zip.by_index(index).map_err(|e| e.to_string())?;
    Ok(file.name().to_string())
}

/// Reads every entry of a ZIP archive held in memory.
///
/// Trusted: the same reader calls as [`entry_count`], [`entry_name_at`] and
/// [`read_entry_at`], made for every index in turn; so on success the count, the names and
/// the contents are those the single-entry calls give, which the last four clauses state.
#[verifier::external_body]
pub fn read_all_entries(archive: &[u8]) -> (r: Result<Vec<(String, Vec<u8>)>, String>)
    ensures
        match zip_contents(archive@) {
            Ok(entries) => r matches Ok(v) && v.deep_view() == entries,
            Err(e) => r matches Err(m) && m@ == e,
        },
        r matches Ok(v) ==> (zip_listing(archive@) matches Ok(names) && names == entry_names(v.deep_view())),
        r matches Ok(v) ==> forall|i: int| 0 <= i < v@.len() ==> (#[trigger] zip_entry_content(archive@, i) matches Ok(d) && d == v@[i].1@),
        r matches Ok(v) ==> (zip_entry_count(archive@) matches Ok(n) && n == v@.len()),
        r matches Ok(v) ==> forall|i: int| 0 <= i < v@.len() ==> (#[trigger] zip_entry_name(archive@, i) matches Ok(n) && n == v@[i].0@),
{
    let mut zip = zip::ZipArchive::new(std::io::Cursor::new(archive)).map_err(|e| e.to_string())?;
    let mut out = Vec::with_capacity(zip.len());
    for i in 0..zip.len() {
        let mut file = zip.by_index(i).map_err(|e| e.to_string())?;
        let mut data = Vec::new();
        file.read_to_end(&mut data).map_err(|e| e.to_string())?;
        out.push((file.name().to_string(), data));
    }
    Ok(out)
}

/// The longest entry name, in UTF-8 bytes, that a ZIP header can record.
pub const MAX_ENTRY_NAME_BYTES: usize = 65535;

/// Every entry name fits the two-byte name length of a ZIP header.
pub open spec fn names_fit(entries: Seq<(Seq<char>, Seq<u8>)>) -> bool {
    forall|i: int| 0 <= i < entries.len() ==> encode_utf8(#[trigger] entries[i].0).len() <= MAX_ENTRY_NAME_BYTES
}

/// The error given for an entry name too long for a ZIP header.
pub open spec fn name_too_long_text() -> Seq<char> {
    "entry name longer than 65535 bytes"@
}

/// Storing a list of entries: the writer's outcome when every name fits a ZIP header,
/// else the name-length error.
pub open spec fn spec_store(entries: Seq<(Seq<char>, Seq<u8>)>) -> Result<Seq<u8>, Seq<char>> {
    if names_fit(entries) {
        zip_stored(entries)
    } else {
        Err(name_too_long_text())
    }
}

/// Writes a fresh ZIP archive that stores the entries uncompressed, in order.
///
/// Trusted: `zip::ZipWriter` over an in-memory cursor, `start_file` with
/// `CompressionMethod::Stored` and `write_all` for each entry, then `finish`.  The writer
/// refuses a repeated name ("Duplicate filename"), and an archive it wrote reads back as
/// the same entries; the last two clauses state these two facts.  The writer turns each
/// name's byte length into a `u16` with `unwrap`, so a longer name would panic: the
/// `requires` leaves such names out.
#[verifier::external_body]
fn write_stored(entries: &[(String, Vec<u8>)]) -> (r: Result<Vec<u8>, String>)
    requires
        names_fit(entries.deep_view()),
    ensures
        match zip_stored(entries.deep_view()) {
            Ok(out) => r matches Ok(v) && v@ == out,
            Err(e) => r matches Err(m) && m@ == e,
        },
        !entry_names(entries.deep_view()).no_duplicates() ==> r is Err,
        r matches Ok(v) ==> (zip_contents(v@) matches Ok(back) && back == entries.deep_view()),
{
    let mut writer = zip::ZipWriter::new(std::io::Cursor::new(Vec::new()));
    let options = zip::write::SimpleFileOptions::default().compression_method(zip::CompressionMethod::Stored);
    for (name, data) in entries {
        writer.start_file(name.as_str(), options).map_err(|e| e.to_string())?;
        writer.write_all(data).map_err(|e| e.to_string())?;
    }
    writer.finish().map(|cursor| cursor.into_inner()).map_err(|e| e.to_string())
}

/// Writes a fresh ZIP archive that stores the entries uncompressed, in order (see
/// [`spec_store`]); an entry name too long for a ZIP header is refused before anything is
/// written.  What is written reads back as exactly the entries given.
pub fn store_entries(entries: &[(String, Vec<u8>)]) -> (r: Result<Vec<u8>, String>)
    ensures
        match spec_store(entries.deep_view()) {
            Ok(out) => r matches Ok(v) && v@ == out,
            Err(e) => r matches Err(m) && m@ == e,
        },
        !entry_names(entries.deep_view()).no_duplicates() ==> r is Err,
        r matches Ok(v) ==> (zip_contents(v@) matches Ok(back) && back == entries.deep_view()),
{
    let mut i: usize = 0;
    while i < entries.len()
        invariant
            i <= entries@.len(),
            forall|k: int| 0 <= k < i ==> encode_utf8(#[trigger] entries.deep_view()[k].0).len() <= MAX_ENTRY_NAME_BYTES,
        decreases entries@.len() - i,
    {
        let name: &str = entries[i].0.as_str();
        let len: usize = name.as_bytes().len();
        assert(entries.deep_view()[i as int].0 == name@);
        if len > MAX_ENTRY_NAME_BYTES {
            assert(encode_utf8(entries.deep_view()[i as int].0).len() > MAX_ENTRY_NAME_BYTES);
            return Err(String::from_str("entry name longer than 65535 bytes"));
        }
        i = i + 1;
    }
    assert(names_fit(entries.deep_view()));
    write_stored(entries)
}

/// The entries among the first `k` whose names are not in `skip`, in order, read one by one
/// as the reader goes: the first error met, a name or a kept entry that cannot be read,
/// ends the reading.  A skipped entry is never read.
pub open spec fn kept_upto(archive: Seq<u8>, skip: Seq<Seq<char>>, k: int) -> Result<Seq<(Seq<char>, Seq<u8>)>, Seq<char>>
    decreases k,
{
    if k <= 0 {
        Ok(Seq::empty())
    } else {
        match kept_upto(archive, skip, k - 1) {
            Err(e) => Err(e),
            Ok(prev) => match zip_entry_name(archive, k - 1) {
                Err(e) => Err(e),
                Ok(n) => if skip.contains(n) {
                    Ok(prev)
                } else {
                    match zip_entry_content(archive, k - 1) {
                        Err(e) => Err(e),
                        Ok(d) => Ok(prev.push((n, d))),
                    }
                },
            },
        }
    }
}

/// Every entry of the archive whose name is not in `skip`, in order (see [`kept_upto`]),
/// or the first error.
pub open spec fn spec_entries_except(archive: Seq<u8>, skip: Seq<Seq<char>>) -> Result<Seq<(Seq<char>, Seq<u8>)>, Seq<char>> {
    match zip_entry_count(archive) {
        Err(e) => Err(e),
        Ok(c) => kept_upto(archive, skip, c as int),
    }
}

/// Whether entry `i` is accounted for in `kept`: its name is in `skip`, or it is in `kept`
/// with its content.
pub open spec fn kept_entry_at(archive: Seq<u8>, skip: Seq<Seq<char>>, kept: Seq<(Seq<char>, Seq<u8>)>, i: int) -> bool {
    match zip_entry_name(archive, i) {
        Err(_) => false,
        Ok(n) => skip.contains(n) || match zip_entry_content(archive, i) {
            Ok(d) => kept.contains((n, d)),
            Err(_) => false,
        },
    }
}

proof fn lemma_kept_err(archive: Seq<u8>, skip: Seq<Seq<char>>, j: int, k: int)
    requires
        0 <= j <= k,
        kept_upto(archive, skip, j) is Err,
    ensures
        kept_upto(archive, skip, k) == kept_upto(archive, skip, j),
    decreases k - j,
{
    if j < k {
        lemma_kept_err(archive, skip, j, k - 1);
    }
}

/// What reading skips and keeps: every entry whose name is not in `skip` is kept with its
/// content, and no kept entry has a name in `skip`.
pub proof fn lemma_kept_entries(archive: Seq<u8>, skip: Seq<Seq<char>>, k: int)
    ensures
        kept_upto(archive, skip, k) matches Ok(kept) ==> (forall|i: int| 0 <= i < k ==> #[trigger] kept_entry_at(archive, skip, kept, i)),
        kept_upto(archive, skip, k) matches Ok(kept) ==> (forall|j: int| 0 <= j < kept.len() ==> !skip.contains(#[trigger] kept[j].0)),
    decreases k,
{
    if k > 0 {
        lemma_kept_entries(archive, skip, k - 1);
        if let Ok(kept) = kept_upto(archive, skip, k) {
            let prev = kept_upto(archive, skip, k - 1)->Ok_0;
            assert forall|i: int| 0 <= i < k implies #[trigger] kept_entry_at(archive, skip, kept, i) by {
                if i < k - 1 {
                    assert(kept_entry_at(archive, skip, prev, i));
                    if let Ok(n) = zip_entry_name(archive, i) {
                        if !skip.contains(n) {
                            if let Ok(d) = zip_entry_content(archive, i) {
                                let m = choose|m: int| 0 <= m < prev.len() && prev[m] == (n, d);
                                assert(kept[m] == (n, d));
                            }
                        }
                    }
                } else {
                    if let Ok(n) = zip_entry_name(archive, i) {
                        if !skip.contains(n) {
                            if let Ok(d) = zip_entry_content(archive, i) {
                                assert(kept[kept.len() - 1] == (n, d));
                            }
                        }
                    }
                }
            }
            assert forall|j: int| 0 <= j < kept.len() implies !skip.contains(#[trigger] kept[j].0) by {
                if j < prev.len() {
                    assert(kept[j] == prev[j]);
                }
            }
        }
    }
}

/// Reads every entry of an archive whose name is not in `skip` (see
/// [`spec_entries_except`]); skipped entries are never read.
pub fn read_entries_except(archive: &[u8], skip: &Vec<String>) -> (r: Result<Vec<(String, Vec<u8>)>, String>)
    ensures
        match spec_entries_except(archive@, skip.deep_view()) {
            Ok(k) => r matches Ok(v) && v.deep_view() == k,
            Err(e) => r matches Err(m) && m@ == e,
        },
{
    let ghost a = archive@;
    let ghost sk = skip.deep_view();
    let count = match entry_count(archive) {
        Ok(c) => c,
        Err(e) => return Err(e),
    };
    let mut kept: Vec<(String, Vec<u8>)> = Vec::new();
    assert(kept.deep_view() =~= Seq::<(Seq<char>, Seq<u8>)>::empty());
    let mut i: usize = 0;
    match read_all_entries(archive) {
        Ok(all) => {
            while i < all.len()
                invariant
                    a == archive@,
                    sk == skip.deep_view(),
                    i <= all@.len(),
                    count == all@.len(),
                    zip_entry_count(a) == Ok::<nat, Seq<char>>(count as nat),
                    forall|j: int| 0 <= j < all@.len() ==> (#[trigger] zip_entry_content(a, j) matches Ok(d) && d == all@[j].1@),
                    forall|j: int| 0 <= j < all@.len() ==> (#[trigger] zip_entry_name(a, j) matches Ok(n) && n == all@[j].0@),
                    kept_upto(a, sk, i as int) == Ok::<Seq<(Seq<char>, Seq<u8>)>, Seq<char>>(kept.deep_view()),
                decreases all@.len() - i,
            {
                assert(zip_entry_name(a, i as int) matches Ok(n) && n == all@[i as int].0@);
                assert(zip_entry_content(a, i as int) matches Ok(d) && d == all@[i as int].1@);
                if !crate::injection::contains_string(skip, &all[i].0) {
                    let ghost before = kept.deep_view();
                    let data = all[i].1.clone();
                    assert(data.deep_view() =~= data@);
                    assert(all@[i as int].1.deep_view() =~= all@[i as int].1@);
                    kept.push((all[i].0.clone(), data));
                    assert(kept.deep_view() =~= before.push((all@[i as int].0@, all@[i as int].1@)));
                }
                i = i + 1;
            }
            Ok(kept)
        },
        Err(_) => {
            while i < count
                invariant
                    a == archive@,
                    sk == skip.deep_view(),
                    i <= count,
                    zip_entry_count(a) == Ok::<nat, Seq<char>>(count as nat),
                    kept_upto(a, sk, i as int) == Ok::<Seq<(Seq<char>, Seq<u8>)>, Seq<char>>(kept.deep_view()),
                decreases count - i,
            {
                let name = match entry_name_at(archive, i) {
                    Ok(n) => n,
                    Err(e) => {
                        proof {
                            lemma_kept_err(a, sk, i + 1, count as int);
                        }
                        return Err(e);
                    },
                };
                if !crate::injection::contains_string(skip, &name) {
                    let data = match read_entry_at(archive, i) {
                        Ok(d) => d,
                        Err(e) => {
                            proof {
                                lemma_kept_err(a, sk, i + 1, count as int);
                            }
                            return Err(e);
                        },
                    };
                    let ghost before = kept.deep_view();
                    assert(data.deep_view() =~= data@);
                    kept.push((name, data));
                    assert(kept.deep_view() =~= before.push((name@, data@)));
                }
                i = i + 1;
            }
            Ok(kept)
        },
    }
}

} // verus!
