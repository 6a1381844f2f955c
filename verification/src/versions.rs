//! App version histories from two outside services: reading a version entry, merging two
//! lists so that each version appears once, and the list offered to clients.
use vstd::prelude::*;
use crate::delivery::{parse_i64, spec_parse_i64};
use crate::json::{json_clone, json_get, json_member, json_same, json_text, number_as_i64, JsonNode};
use crate::text::{chars_of, decimal_signed, push_chars, push_str, spec_decimal_signed, string_from_chars, trim, trim_white};

verus! {

/// An optional reference read as an optional value.
pub open spec fn deref_node(value: Option<&JsonNode>) -> Option<JsonNode> {
    match value {
        Some(v) => Some(*v),
        None => None,
    }
}

/// What an optional JSON value reads as an `i64`: an integer that fits; another number as
/// a double turned into an `i64` (toward zero, saturating); the trimmed text of a string
/// read as an `i64`; nothing otherwise.
pub open spec fn spec_json_i64(value: Option<JsonNode>) -> Option<int> {
    match value {
        Some(JsonNode::Number(n)) => match number_as_i64(n) {
            Some(i) => Some(i),
            None => Some(n.whole as int),
        },
        Some(JsonNode::String(s)) => spec_parse_i64(trim_white(s@)),
        _ => None,
    }
}

/// Reads an optional JSON value as an `i64` (see [`spec_json_i64`]).
pub fn parse_json_i64(value: Option<&JsonNode>) -> (r: Option<i64>)
    ensures
        match spec_json_i64(deref_node(value)) {
            Some(v) => r matches Some(x) && x as int == v,
            None => r is None,
        },
{
    match value {
        Some(JsonNode::Number(n)) => match n.integer {
            Some(i) => {
                if -9223372036854775808i128 <= i && i <= 9223372036854775807i128 {
                    Some(i as i64)
                } else {
                    Some(n.whole)
                }
            },
            None => Some(n.whole),
        },
        Some(JsonNode::String(s)) => {
            let t = trim(s.as_str());
            let cs = chars_of(t.as_str());
            parse_i64(cs.as_slice())
        },
        _ => None,
    }
}

/// The first of two optional values that is set.
pub open spec fn either(a: Option<JsonNode>, b: Option<JsonNode>) -> Option<JsonNode> {
    if a is Some { a } else { b }
}

fn either_ref<'a>(a: Option<&'a JsonNode>, b: Option<&'a JsonNode>) -> (r: Option<&'a JsonNode>)
    ensures
        deref_node(r) == either(deref_node(a), deref_node(b)),
{
    match a {
        Some(x) => Some(x),
        None => b,
    }
}

/// The text of an optional string value, or the empty text.
pub open spec fn text_or_empty(value: Option<JsonNode>) -> Seq<char> {
    match json_text(value) {
        Some(t) => t,
        None => Seq::empty(),
    }
}

fn text_of(value: Option<&JsonNode>) -> (r: String)
    ensures
        r@ == text_or_empty(deref_node(value)),
{
    match value {
        Some(JsonNode::String(s)) => s.clone(),
        _ => String::new(),
    }
}

/// The label of a version entry: the first member present among `bundle_version`,
/// `version` and `name`, when it is a string (else empty).
pub open spec fn spec_version_label(item: JsonNode) -> Seq<char> {
    text_or_empty(either(either(json_get(item, "bundle_version"@), json_get(item, "version"@)), json_get(item, "name"@)))
}

/// The label of a version entry (see [`spec_version_label`]).
pub fn extract_version_label(item: &JsonNode) -> (r: String)
    ensures
        r@ == spec_version_label(*item),
{
    let first = either_ref(json_member(item, "bundle_version"), json_member(item, "version"));
    text_of(either_ref(first, json_member(item, "name")))
}

/// The external identifier of a version entry: the first member present among
/// `external_identifier`, `externalVersionId`, `version_id`, `appVersionId` and `id`, read
/// as an `i64` (see [`spec_json_i64`]), else 0.
pub open spec fn spec_version_external_identifier(item: JsonNode) -> int {
    let value = either(
        either(
            either(either(json_get(item, "external_identifier"@), json_get(item, "externalVersionId"@)), json_get(item, "version_id"@)),
            json_get(item, "appVersionId"@),
        ),
        json_get(item, "id"@),
    );
    match spec_json_i64(value) {
        Some(v) => v,
        None => 0,
    }
}

/// The external identifier of a version entry (see [`spec_version_external_identifier`]).
pub fn extract_version_external_identifier(item: &JsonNode) -> (r: i64)
    ensures
        r as int == spec_version_external_identifier(*item),
{
    let a = either_ref(json_member(item, "external_identifier"), json_member(item, "externalVersionId"));
    let b = either_ref(a, json_member(item, "version_id"));
    let c = either_ref(b, json_member(item, "appVersionId"));
    let value = either_ref(c, json_member(item, "id"));
    match parse_json_i64(value) {
        Some(v) => v,
        None => 0,
    }
}

/// The member `key` of the member `outer` of a value.
pub open spec fn nested_member(item: JsonNode, outer: Seq<char>, key: Seq<char>) -> Option<JsonNode> {
    match json_get(item, outer) {
        Some(v) => json_get(v, key),
        None => None,
    }
}

/// The members read for the size of a version entry, in order.
pub open spec fn size_sources(item: JsonNode) -> Seq<Option<JsonNode>> {
    seq![
        json_get(item, "size"@),
        json_get(item, "fileSizeBytes"@),
        json_get(item, "size_bytes"@),
        json_get(item, "bundleSizeBytes"@),
        json_get(item, "downloadSize"@),
        json_get(item, "download_size"@),
        json_get(item, "file_size"@),
        json_get(item, "appSize"@),
        json_get(item, "app_size"@),
        nested_member(item, "asset"@, "size"@),
        nested_member(item, "metadata"@, "fileSizeBytes"@),
    ]
}

/// The first of the values, from position `i` on, that reads as an `i64`.
pub open spec fn first_i64_from(values: Seq<Option<JsonNode>>, i: int) -> Option<int>
    decreases values.len() - i,
{
    if i < 0 || i >= values.len() {
        None
    } else {
        match spec_json_i64(values[i]) {
            Some(v) => Some(v),
            None => first_i64_from(values, i + 1),
        }
    }
}

/// The size of a version entry: the first of its size members (see [`size_sources`]) that
/// reads as an `i64`, else 0.
pub open spec fn spec_version_size(item: JsonNode) -> int {
    match first_i64_from(size_sources(item), 0) {
        Some(v) => v,
        None => 0,
    }
}

fn nested<'a>(item: &'a JsonNode, outer: &str, key: &str) -> (r: Option<&'a JsonNode>)
    ensures
        deref_node(r) == nested_member(*item, outer@, key@),
{
    match json_member(item, outer) {
        Some(v) => json_member(v, key),
        None => None,
    }
}

fn size_source<'a>(item: &'a JsonNode, k: usize) -> (r: Option<&'a JsonNode>)
    requires
        k < 11,
    ensures
        deref_node(r) == size_sources(*item)[k as int],
{
    if k == 0 {
        json_member(item, "size")
    } else if k == 1 {
        json_member(item, "fileSizeBytes")
    } else if k == 2 {
        json_member(item, "size_bytes")
    } else if k == 3 {
        json_member(item, "bundleSizeBytes")
    } else if k == 4 {
        json_member(item, "downloadSize")
    } else if k == 5 {
        json_member(item, "download_size")
    } else if k == 6 {
        json_member(item, "file_size")
    } else if k == 7 {
        json_member(item, "appSize")
    } else if k == 8 {
        json_member(item, "app_size")
    } else if k == 9 {
        nested(item, "asset", "size")
    } else {
        nested(item, "metadata", "fileSizeBytes")
    }
}

/// The size of a version entry (see [`spec_version_size`]).
pub fn extract_version_size(item: &JsonNode) -> (r: i64)
    ensures
        r as int == spec_version_size(*item),
{
    let ghost values = size_sources(*item);
    let mut i: usize = 0;
    while i < 11
        invariant
            i <= 11,
            values == size_sources(*item),
            values.len() == 11,
            first_i64_from(values, 0) == first_i64_from(values, i as int),
        decreases 11 - i,
    {
        match parse_json_i64(size_source(item, i)) {
            Some(v) => {
                return v;
            },
            None => {},
        }
        i = i + 1;
    }
    0
}

/// The date of a version entry: the first member present among `created_at` and `date`,
/// when it is a string (else empty).
pub open spec fn spec_version_created_at(item: JsonNode) -> Seq<char> {
    text_or_empty(either(json_get(item, "created_at"@), json_get(item, "date"@)))
}

/// The date of a version entry (see [`spec_version_created_at`]).
pub fn extract_version_created_at(item: &JsonNode) -> (r: String)
    ensures
        r@ == spec_version_created_at(*item),
{
    text_of(either_ref(json_member(item, "created_at"), json_member(item, "date")))
}

/// A version entry as the service reports it.
#[derive(Debug, Clone)]
pub struct VersionItem {
    pub bundle_version: String,
    pub external_identifier: i64,
    pub size: i64,
    pub created_at: String,
}

/// The mathematical value of a version entry.
pub struct VersionView {
    pub bundle_version: Seq<char>,
    pub external_identifier: int,
    pub size: int,
    pub created_at: Seq<char>,
}

impl View for VersionItem {
    type V = VersionView;

    open spec fn view(&self) -> VersionView {
        VersionView {
            bundle_version: self.bundle_version@,
            external_identifier: self.external_identifier as int,
            size: self.size as int,
            created_at: self.created_at@,
        }
    }
}

/// The values of a list of version entries.
pub open spec fn views(items: Seq<VersionItem>) -> Seq<VersionView> {
    items.map_values(|x: VersionItem| x@)
}

/// What a JSON version entry reports (see [`spec_version_label`],
/// [`spec_version_external_identifier`], [`spec_version_size`] and
/// [`spec_version_created_at`]).
pub open spec fn version_view_of(item: JsonNode) -> VersionView {
    VersionView {
        bundle_version: spec_version_label(item),
        external_identifier: spec_version_external_identifier(item),
        size: spec_version_size(item),
        created_at: spec_version_created_at(item),
    }
}

/// What a JSON version entry reports (see [`version_view_of`]).
pub fn format_version_item(item: &JsonNode) -> (r: VersionItem)
    ensures
        r@ == version_view_of(*item),
{
    VersionItem {
        bundle_version: extract_version_label(item),
        external_identifier: extract_version_external_identifier(item),
        size: extract_version_size(item),
        created_at: extract_version_created_at(item),
    }
}

fn copy_item(item: &VersionItem) -> (r: VersionItem)
    ensures
        r@ == item@,
{
    VersionItem {
        bundle_version: item.bundle_version.clone(),
        external_identifier: item.external_identifier,
        size: item.size,
        created_at: item.created_at.clone(),
    }
}

/// The key under which two entries are the same version: `id:<external id>` when the id is
/// positive; else, for a labelled entry, `ver:<label>@<date>` or, without a date,
/// `ver:<label>`; none for an entry with neither.
pub open spec fn spec_merge_key(v: VersionView) -> Option<Seq<char>> {
    if v.external_identifier > 0 {
        Some("id:"@ + spec_decimal_signed(v.external_identifier))
    } else if v.bundle_version.len() == 0 {
        None
    } else if v.created_at.len() > 0 {
        Some("ver:"@ + v.bundle_version + "@"@ + v.created_at)
    } else {
        Some("ver:"@ + v.bundle_version)
    }
}

/// The key of a version entry (see [`spec_merge_key`]).
pub fn version_merge_key(item: &VersionItem) -> (r: Option<String>)
    ensures
        match spec_merge_key(item@) {
            Some(k) => r matches Some(s) && s@ == k,
            None => r is None,
        },
{
    let mut buf: Vec<char> = Vec::new();
    if item.external_identifier > 0 {
        push_str(&mut buf, "id:");
        let digits = decimal_signed(item.external_identifier);
        push_chars(&mut buf, digits.as_slice());
        return Some(string_from_chars(buf.as_slice()));
    }
    let label = chars_of(item.bundle_version.as_str());
    if label.len() == 0 {
        return None;
    }
    let created = chars_of(item.created_at.as_str());
    push_str(&mut buf, "ver:");
    push_chars(&mut buf, label.as_slice());
    if created.len() > 0 {
        push_str(&mut buf, "@");
        push_chars(&mut buf, created.as_slice());
    }
    Some(string_from_chars(buf.as_slice()))
}

/// A version entry completed from another report of the same version: a size that is not
/// positive takes the other's positive size, an empty date takes the other's date.
pub open spec fn spec_merged(primary: VersionView, fallback: VersionView) -> VersionView {
    VersionView {
        size: if primary.size <= 0 && fallback.size > 0 { fallback.size } else { primary.size },
        created_at: if primary.created_at.len() == 0 && fallback.created_at.len() > 0 {
            fallback.created_at
        } else {
            primary.created_at
        },
        ..primary
    }
}

/// Completes a version entry from another report of the same version (see
/// [`spec_merged`]).
pub fn merge_version_records(primary: &mut VersionItem, fallback: &VersionItem)
    ensures
        final(primary)@ == spec_merged(old(primary)@, fallback@),
{
    if primary.size <= 0 && fallback.size > 0 {
        primary.size = fallback.size;
    }
    let created = chars_of(primary.created_at.as_str());
    let fallback_created = chars_of(fallback.created_at.as_str());
    if created.len() == 0 && fallback_created.len() > 0 {
        primary.created_at = fallback.created_at.clone();
    }
}

/// Where each keyed entry of a list sits: the last position with that key.
pub open spec fn primary_index(items: Seq<VersionView>) -> Map<Seq<char>, int>
    decreases items.len(),
{
    if items.len() == 0 {
        Map::empty()
    } else {
        let before = primary_index(items.drop_last());
        match spec_merge_key(items.last()) {
            Some(k) => before.insert(k, items.len() - 1),
            None => before,
        }
    }
}

/// The merge of two version lists, with where each key sits: the first list, then each
/// entry of the second in turn, which completes the entry whose key it shares (see
/// [`spec_merged`]) or, when its key is new or it has none, is appended.
pub open spec fn spec_merge_lists(primary: Seq<VersionView>, secondary: Seq<VersionView>) -> (Seq<VersionView>, Map<Seq<char>, int>)
    decreases secondary.len(),
{
    if secondary.len() == 0 {
        (primary, primary_index(primary))
    } else {
        let (merged, index) = spec_merge_lists(primary, secondary.drop_last());
        let item = secondary.last();
        match spec_merge_key(item) {
            Some(k) => if index.contains_key(k) {
                (merged.update(index[k], spec_merged(merged[index[k]], item)), index)
            } else {
                (merged.push(item), index.insert(k, merged.len() as int))
            },
            None => (merged.push(item), index),
        }
    }
}

/// Whether a list of (key, position) pairs holds the map: distinct keys, each with its
/// position, and every key of the map among them.
pub open spec fn index_holds(entries: Seq<(String, usize)>, index: Map<Seq<char>, int>) -> bool {
    &&& forall|j: int| 0 <= j < entries.len() ==> index.contains_key((#[trigger] entries[j]).0@) && index[entries[j].0@] == entries[j].1 as int
    &&& forall|k: Seq<char>| #[trigger] index.contains_key(k) ==> exists|j: int| 0 <= j < entries.len() && (#[trigger] entries[j]).0@ == k
    &&& forall|i: int, j: int| 0 <= i < j < entries.len() ==> (#[trigger] entries[i]).0@ != (#[trigger] entries[j]).0@
}

fn find_key(entries: &Vec<(String, usize)>, key: &String) -> (r: Option<usize>)
    ensures
        match r {
            Some(j) => j < entries@.len() && entries@[j as int].0@ == key@,
            None => forall|j: int| 0 <= j < entries@.len() ==> (#[trigger] entries@[j]).0@ != key@,
        },
{
    let mut i: usize = 0;
    while i < entries.len()
        invariant
            i <= entries@.len(),
            forall|j: int| 0 <= j < i ==> (#[trigger] entries@[j]).0@ != key@,
        decreases entries@.len() - i,
    {
        if entries[i].0 == *key {
            return Some(i);
        }
        i = i + 1;
    }
    None
}

fn index_insert(entries: &mut Vec<(String, usize)>, key: String, position: usize, Ghost(index): Ghost<Map<Seq<char>, int>>)
    requires
        index_holds(old(entries)@, index),
    ensures
        index_holds(final(entries)@, index.insert(key@, position as int)),
{
    match find_key(entries, &key) {
        Some(j) => {
            let ghost k = key@;
            entries.set(j, (key, position));
            let ghost m = index.insert(k, position as int);
            assert forall|q: Seq<char>| #[trigger] m.contains_key(q) implies exists|i: int| 0 <= i < entries@.len() && (#[trigger] entries@[i]).0@ == q by {
                if q == k {
                    assert(entries@[j as int].0@ == q);
                } else {
                    let i = choose|i: int| 0 <= i < old(entries)@.len() && (#[trigger] old(entries)@[i]).0@ == q;
                    assert(entries@[i].0@ == q);
                }
            }
        },
        None => {
            let ghost k = key@;
            let ghost n = entries@.len();
            entries.push((key, position));
            let ghost m = index.insert(k, position as int);
            assert forall|q: Seq<char>| #[trigger] m.contains_key(q) implies exists|i: int| 0 <= i < entries@.len() && (#[trigger] entries@[i]).0@ == q by {
                if q == k {
                    assert(entries@[n as int].0@ == q);
                } else {
                    let i = choose|i: int| 0 <= i < old(entries)@.len() && (#[trigger] old(entries)@[i]).0@ == q;
                    assert(entries@[i].0@ == q);
                }
            }
        },
    }
}

/// Every position the map gives lies in a list of length `n`.
pub open spec fn positions_below(index: Map<Seq<char>, int>, n: nat) -> bool {
    forall|k: Seq<char>| #[trigger] index.contains_key(k) ==> 0 <= index[k] < n
}

/// Merges two version lists so that each version appears once (see
/// [`spec_merge_lists`]).
pub fn merge_version_lists(primary: Vec<VersionItem>, secondary: Vec<VersionItem>) -> (r: Vec<VersionItem>)
    ensures
        views(r@) == spec_merge_lists(views(primary@), views(secondary@)).0,
{
    let ghost pv = views(primary@);
    let ghost sv = views(secondary@);
    let mut merged = primary;
    let mut entries: Vec<(String, usize)> = Vec::new();
    let ghost mut index: Map<Seq<char>, int> = Map::empty();
    let mut i: usize = 0;
    while i < merged.len()
        invariant
            i <= merged@.len(),
            views(merged@) == pv,
            index == primary_index(pv.take(i as int)),
            index_holds(entries@, index),
            positions_below(index, i as nat),
        decreases merged@.len() - i,
    {
        assert(pv.take(i + 1).drop_last() =~= pv.take(i as int));
        assert(pv.take(i + 1).last() == merged@[i as int]@);
        match version_merge_key(&merged[i]) {
            Some(key) => {
                let ghost k = key@;
                index_insert(&mut entries, key, i, Ghost(index));
                proof {
                    index = index.insert(k, i as int);
                }
            },
            None => {},
        }
        i = i + 1;
    }
    assert(pv.take(merged@.len() as int) =~= pv);
    let mut j: usize = 0;
    while j < secondary.len()
        invariant
            j <= secondary@.len(),
            sv == views(secondary@),
            (views(merged@), index) == spec_merge_lists(pv, sv.take(j as int)),
            index_holds(entries@, index),
            positions_below(index, merged@.len()),
        decreases secondary@.len() - j,
    {
        assert(sv.take(j + 1).drop_last() =~= sv.take(j as int));
        assert(sv.take(j + 1).last() == secondary@[j as int]@);
        let item = copy_item(&secondary[j]);
        match version_merge_key(&item) {
            Some(key) => {
                match find_key(&entries, &key) {
                    Some(at) => {
                        let target = entries[at].1;
                        assert(index.contains_key(key@));
                        let mut record = copy_item(&merged[target]);
                        merge_version_records(&mut record, &item);
                        merged.set(target, record);
                        assert(views(merged@) =~= spec_merge_lists(pv, sv.take(j + 1)).0);
                    },
                    None => {
                        assert(!index.contains_key(key@));
                        let ghost k = key@;
                        let n = merged.len();
                        index_insert(&mut entries, key, n, Ghost(index));
                        merged.push(item);
                        proof {
                            index = index.insert(k, n as int);
                        }
                        assert(views(merged@) =~= spec_merge_lists(pv, sv.take(j + 1)).0);
                    },
                }
            },
            None => {
                merged.push(item);
                assert(views(merged@) =~= spec_merge_lists(pv, sv.take(j + 1)).0);
            },
        }
        j = j + 1;
    }
    assert(sv.take(secondary@.len() as int) =~= sv);
    merged
}

/// The version entries of a service's reply: its `data` member when that is an array,
/// else the reply itself when it is an array, else none.
pub open spec fn version_array(json: JsonNode) -> Seq<JsonNode> {
    match json_get(json, "data"@) {
        Some(JsonNode::Array(d)) => d@,
        _ => match json {
            JsonNode::Array(a) => a@,
            _ => Seq::empty(),
        },
    }
}

fn version_entries(json: &JsonNode) -> (r: Option<&Vec<JsonNode>>)
    ensures
        match r {
            Some(v) => v@ == version_array(*json),
            None => version_array(*json).len() == 0,
        },
{
    match json_member(json, "data") {
        Some(JsonNode::Array(d)) => Some(d),
        _ => match json {
            JsonNode::Array(a) => Some(a),
            _ => None,
        },
    }
}

/// A copy of the version entries of a service's reply (see [`version_array`]).
pub fn extract_version_array(json: &JsonNode) -> (r: Vec<JsonNode>)
    ensures
        r@.len() == version_array(*json).len(),
        forall|i: int| 0 <= i < r@.len() ==> json_same(version_array(*json)[i], #[trigger] r@[i]),
{
    let mut out: Vec<JsonNode> = Vec::new();
    match version_entries(json) {
        Some(entries) => {
            let mut i: usize = 0;
            while i < entries.len()
                invariant
                    i <= entries@.len(),
                    out@.len() == i,
                    forall|k: int| 0 <= k < i ==> json_same(entries@[k], #[trigger] out@[k]),
                decreases entries@.len() - i,
            {
                out.push(json_clone(&entries[i]));
                i = i + 1;
            }
        },
        None => {},
    }
    out
}

/// What the entries of a service's reply report (see [`version_view_of`]).
pub open spec fn reports(json: JsonNode) -> Seq<VersionView> {
    version_array(json).map_values(|x: JsonNode| version_view_of(x))
}

fn read_reports(json: &JsonNode) -> (r: Vec<VersionItem>)
    ensures
        views(r@) == reports(*json),
{
    let mut out: Vec<VersionItem> = Vec::new();
    match version_entries(json) {
        Some(entries) => {
            let mut i: usize = 0;
            while i < entries.len()
                invariant
                    i <= entries@.len(),
                    entries@ == version_array(*json),
                    views(out@) == reports(*json).take(i as int),
                decreases entries@.len() - i,
            {
                let item = format_version_item(&entries[i]);
                assert(reports(*json)[i as int] == version_view_of(entries@[i as int]));
                let ghost before = out@;
                out.push(item);
                assert(views(out@) =~= views(before).push(item@));
                assert(views(out@) =~= reports(*json).take(i + 1));
                i = i + 1;
            }
            assert(reports(*json).take(entries@.len() as int) =~= reports(*json));
        },
        None => {
            assert(views(out@) =~= reports(*json));
        },
    }
    out
}

/// The entries worth offering: those with a label and a positive external identifier, in
/// order.
pub open spec fn offered(items: Seq<VersionView>) -> Seq<VersionView>
    decreases items.len(),
{
    if items.len() == 0 {
        Seq::empty()
    } else {
        let before = offered(items.drop_last());
        let last = items.last();
        if last.bundle_version.len() > 0 && last.external_identifier > 0 {
            before.push(last)
        } else {
            before
        }
    }
}

/// The versions offered for an app from two services' replies (a failed request counts as
/// `Null`): the second list merged into the first (see [`spec_merge_lists`]), keeping the
/// entries with a label and a positive external identifier (see [`offered`]).
pub fn versions_offered(first: &JsonNode, second: &JsonNode) -> (r: Vec<VersionItem>)
    ensures
        views(r@) == offered(spec_merge_lists(reports(*first), reports(*second)).0),
{
    let merged = merge_version_lists(read_reports(first), read_reports(second));
    let ghost all = views(merged@);
    let mut out: Vec<VersionItem> = Vec::new();
    let mut i: usize = 0;
    while i < merged.len()
        invariant
            i <= merged@.len(),
            all == views(merged@),
            views(out@) == offered(all.take(i as int)),
        decreases merged@.len() - i,
    {
        assert(all.take(i + 1).drop_last() =~= all.take(i as int));
        let keep = chars_of(merged[i].bundle_version.as_str()).len() > 0 && merged[i].external_identifier > 0;
        if keep {
            out.push(copy_item(&merged[i]));
        }
        assert(views(out@) =~= offered(all.take(i + 1)));
        i = i + 1;
    }
    assert(all.take(merged@.len() as int) =~= all);
    out
}

} // verus!
