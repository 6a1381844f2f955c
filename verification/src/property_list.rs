//! Property lists as a tree of plain values, decoded from and encoded to bytes by the
//! `plist` crate, with the lookups the IPA logic makes.
use vstd::prelude::*;

verus! {

/// A property-list value.
#[derive(Debug)]
pub enum PlistNode {
    Array(Vec<PlistNode>),
    /// Entries in document order; keys are distinct in decoded documents.
    Dictionary(Vec<(String, PlistNode)>),
    Boolean(bool),
    Data(Vec<u8>),
    /// A date, as its RFC 3339 (XML plist) text.
    Date(String),
    /// A real number, as its shortest decimal rendering that reads back to the same
    /// double (Rust's `Display`).
    Real(String),
    /// An integer; always within the range of `i64` or of `u64`.
    Integer(i128),
    String(String),
    Uid(u64),
}

/// Declares `plist::Value` so that the converters below can name it.
#[verifier::external_type_specification]
#[verifier::external_body]
pub struct ExPlistValue(plist::Value);

/// The tree that `plist::from_bytes::<plist::Value>` reads from the bytes, or its error text.
pub uninterp spec fn plist_decoded(bytes: Seq<u8>) -> Result<PlistNode, Seq<char>>;

/// The XML document that `plist::to_writer_xml_with_options` (default options) writes for
/// the tree, or its error text.
pub uninterp spec fn plist_xml(node: PlistNode) -> Result<Seq<u8>, Seq<char>>;

/// Turns a `plist::Value` into the equivalent tree, variant for variant.
#[verifier::external_body]
fn node_of_value(value: &plist::Value) -> PlistNode {
    match value {
        plist::Value::Array(items) => PlistNode::Array(items.iter().map(node_of_value).collect()),
        plist::Value::Dictionary(d) => PlistNode::Dictionary(d.iter().map(|(k, v)| (k.clone(), node_of_value(v))).collect()),
        other => scalar_node_of_value(other),
    }
}

/// Turns a `plist::Value` that is not a container into the equivalent tree.
#[verifier::external_body]
fn scalar_node_of_value(value: &plist::Value) -> PlistNode {
    match value {
        plist::Value::Boolean(b) => PlistNode::Boolean(*b),
        plist::Value::Data(d) => PlistNode::Data(d.clone()),
        plist::Value::Date(d) => PlistNode::Date(d.to_xml_format()),
        plist::Value::Real(r) => PlistNode::Real(r.to_string()),
        plist::Value::Integer(i) => PlistNode::Integer(i.as_signed().map(i128::from).or(i.as_unsigned().map(i128::from)).unwrap_or(0)),
        plist::Value::String(s) => PlistNode::String(s.clone()),
        plist::Value::Uid(u) => PlistNode::Uid(u.get()),
        _ => PlistNode::String(String::new()),
    }
}

/// Turns a tree into the equivalent `plist::Value`, variant for variant.
#[verifier::external_body]
fn value_of_node(node: &PlistNode) -> plist::Value {
    match node {
        PlistNode::Array(items) => plist::Value::Array(items.iter().map(value_of_node).collect()),
        PlistNode::Dictionary(d) => plist::Value::Dictionary(d.iter().map(|(k, v)| (k.clone(), value_of_node(v))).collect()),
        other => scalar_value_of_node(other),
    }
}

/// Turns a tree that is not a container into the equivalent `plist::Value` (a date whose
/// text is not RFC 3339 becomes that text, a real that does not parse becomes 0).
#[verifier::external_body]
fn scalar_value_of_node(node: &PlistNode) -> plist::Value {
    match node {
        PlistNode::Boolean(b) => plist::Value::Boolean(*b),
        PlistNode::Data(d) => plist::Value::Data(d.clone()),
        PlistNode::Date(t) => date_value_of(t),
        PlistNode::Real(t) => plist::Value::Real(t.parse().unwrap_or_default()),
        PlistNode::Integer(i) => integer_value_of(*i),
        PlistNode::String(s) => plist::Value::String(s.clone()),
        PlistNode::Uid(u) => plist::Value::Uid(plist::Uid::new(*u)),
        _ => plist::Value::Boolean(false),
    }
}

/// Turns the RFC 3339 text of a date into a `plist::Value` date (other text stays text).
#[verifier::external_body]
fn date_value_of(t: &String) -> plist::Value {
    plist::Date::from_xml_format(t).map(plist::Value::Date).unwrap_or(plist::Value::String(t.clone()))
}

/// Turns an integer into a `plist::Value` integer (signed when it fits an `i64`).
#[verifier::external_body]
fn integer_value_of(i: i128) -> plist::Value {
    plist::Value::Integer(i64::try_from(i).map(plist::Integer::from).unwrap_or(plist::Integer::from(i as u64)))
}

/// Reads a property list (XML or binary) from bytes.
///
/// Trusted: `plist::from_bytes::<plist::Value>`, with the value turned into a tree; the
/// tree or the error depends on the bytes alone.
#[verifier::external_body]
pub fn decode_plist(bytes: &[u8]) -> (r: Result<PlistNode, String>)
    ensures
        match plist_decoded(bytes@) {
            Ok(n) => r matches Ok(m) && m == n,
            Err(e) => r matches Err(m) && m@ == e,
        },
{
    plist::from_bytes::<plist::Value>(bytes).map(|v| node_of_value(&v)).map_err(|e| e.to_string())
}

/// Writes a tree as an XML property list with the default options (tab indentation,
/// XML declaration and DOCTYPE).
///
/// Trusted: `plist::to_writer_xml_with_options` into a byte buffer; the bytes or the error
/// depend on the tree alone.
#[verifier::external_body]
pub fn encode_plist_xml(node: &PlistNode) -> (r: Result<Vec<u8>, String>)
    ensures
        match plist_xml(*node) {
            Ok(b) => r matches Ok(v) && v@ == b,
            Err(e) => r matches Err(m) && m@ == e,
        },
{
    let mut buf = Vec::new();
    plist::to_writer_xml_with_options(&mut buf, &value_of_node(node), &plist::XmlWriteOptions::default())
        .map(|_| buf)
        .map_err(|e| e.to_string())
}

/// The value stored under `key` among dictionary entries, searching from position `i`
/// (the first match wins).
pub open spec fn entries_get_from(entries: Seq<(String, PlistNode)>, key: Seq<char>, i: int) -> Option<PlistNode>
    decreases entries.len() - i,
{
    if i < 0 || i >= entries.len() {
        None
    } else if entries[i].0@ == key {
        Some(entries[i].1)
    } else {
        entries_get_from(entries, key, i + 1)
    }
}

/// The value stored under `key` when the node is a dictionary.
pub open spec fn node_get(node: PlistNode, key: Seq<char>) -> Option<PlistNode> {
    match node {
        PlistNode::Dictionary(entries) => entries_get_from(entries@, key, 0),
        _ => None,
    }
}

/// The text stored under `key`, when the node is a dictionary holding a string there.
pub open spec fn node_string(node: PlistNode, key: Seq<char>) -> Option<Seq<char>> {
    match node_get(node, key) {
        Some(PlistNode::String(s)) => Some(s@),
        _ => None,
    }
}

/// The flag stored under `key`: a boolean as is, an integer as "not zero".
pub open spec fn node_flag(node: PlistNode, key: Seq<char>) -> Option<bool> {
    match node_get(node, key) {
        Some(PlistNode::Boolean(b)) => Some(b),
        Some(PlistNode::Integer(i)) => Some(i != 0),
        _ => None,
    }
}

/// The strings among the items of the array stored under `key` (other items are
/// skipped); empty when there is no such array.
pub open spec fn node_string_items(node: PlistNode, key: Seq<char>) -> Seq<Seq<char>> {
    match node_get(node, key) {
        Some(PlistNode::Array(items)) => strings_among(items@),
        _ => Seq::empty(),
    }
}

/// The texts of the string items, in order.
pub open spec fn strings_among(items: Seq<PlistNode>) -> Seq<Seq<char>>
    decreases items.len(),
{
    if items.len() == 0 {
        Seq::empty()
    } else {
        let rest = strings_among(items.drop_last());
        match items.last() {
            PlistNode::String(s) => rest.push(s@),
            _ => rest,
        }
    }
}

/// The value stored under `key` in a dictionary node.
pub fn dict_value<'a>(node: &'a PlistNode, key: &str) -> (r: Option<&'a PlistNode>)
    ensures
        match node_get(*node, key@) {
            Some(v) => r matches Some(x) && *x == v,
            None => r is None,
        },
{
    match node {
        PlistNode::Dictionary(entries) => {
            let wanted = key.to_owned();
            let mut i: usize = 0;
            while i < entries.len()
                invariant
                    i <= entries@.len(),
                    *node == PlistNode::Dictionary(*entries),
                    wanted@ == key@,
                    node_get(*node, key@) == entries_get_from(entries@, key@, i as int),
                decreases entries@.len() - i,
            {
                if entries[i].0 == wanted {
                    return Some(&entries[i].1);
                }
                i = i + 1;
            }
            None
        },
        _ => None,
    }
}

/// The text stored under `key` in a dictionary node, if it is a string.
pub fn plist_string_value(node: &PlistNode, key: &str) -> (r: Option<String>)
    ensures
        match node_string(*node, key@) {
            Some(t) => r matches Some(s) && s@ == t,
            None => r is None,
        },
{
    match dict_value(node, key) {
        Some(PlistNode::String(s)) => Some(s.clone()),
        _ => None,
    }
}

/// The flag stored under `key` in a dictionary node: a boolean, or an integer read as
/// "not zero".
pub fn plist_bool_value(node: &PlistNode, key: &str) -> (r: Option<bool>)
    ensures
        r == node_flag(*node, key@),
{
    match dict_value(node, key) {
        Some(PlistNode::Boolean(b)) => Some(*b),
        Some(PlistNode::Integer(i)) => Some(*i != 0),
        _ => None,
    }
}

/// The strings among the items of the array stored under `key`.
pub fn plist_string_items(node: &PlistNode, key: &str) -> (r: Vec<String>)
    ensures
        r.deep_view() == node_string_items(*node, key@),
{
    let mut out: Vec<String> = Vec::new();
    match dict_value(node, key) {
        Some(PlistNode::Array(items)) => {
            let mut i: usize = 0;
            while i < items.len()
                invariant
                    i <= items@.len(),
                    out.deep_view() == strings_among(items@.subrange(0, i as int)),
                decreases items@.len() - i,
            {
                let ghost before = out.deep_view();
                assert(items@.subrange(0, i + 1).drop_last() == items@.subrange(0, i as int));
                match &items[i] {
                    PlistNode::String(s) => {
                        out.push(s.clone());
                        assert(out.deep_view() =~= before.push(s@));
                    },
                    _ => {},
                }
                i = i + 1;
            }
            assert(items@.subrange(0, items@.len() as int) == items@);
            out
        },
        _ => out,
    }
}

/// Dictionary entries with their keys as text.
pub open spec fn entries_view(entries: Seq<(String, PlistNode)>) -> Seq<(Seq<char>, PlistNode)> {
    Seq::new(entries.len(), |i: int| (entries[i].0@, entries[i].1))
}

/// Where `insert(key, ..)` on an ordered map puts the key, searching from `i`: `(true, k)`
/// when entry `k` has the key, else `(false, k)` for the first entry with a greater key
/// (the end when there is none).
pub open spec fn insert_position(entries: Seq<(Seq<char>, PlistNode)>, key: Seq<char>, i: int) -> (bool, int)
    decreases entries.len() - i,
{
    if i < 0 || i >= entries.len() {
        (false, entries.len() as int)
    } else if entries[i].0 == key {
        (true, i)
    } else if crate::text::text_less(key, entries[i].0) {
        (false, i)
    } else {
        insert_position(entries, key, i + 1)
    }
}

/// The entries after `insert(key, value)` on an ordered map: the value replaces that of
/// the entry with the key, or the entry is inserted in key order.
pub open spec fn entries_inserted(entries: Seq<(Seq<char>, PlistNode)>, key: Seq<char>, value: PlistNode) -> Seq<(Seq<char>, PlistNode)> {
    let (found, pos) = insert_position(entries, key, 0);
    if found {
        entries.update(pos, (key, value))
    } else {
        entries.insert(pos, (key, value))
    }
}

/// Inserts `key: value` into ordered dictionary entries (see [`entries_inserted`]).
pub fn insert_entry(entries: &mut Vec<(String, PlistNode)>, key: String, value: PlistNode)
    ensures
        entries_view(final(entries)@) == entries_inserted(entries_view(old(entries)@), key@, value),
{
    let ghost ev = entries_view(entries@);
    let mut i: usize = 0;
    while i < entries.len()
        invariant
            i <= entries@.len(),
            entries@ == old(entries)@,
            ev == entries_view(old(entries)@),
            insert_position(ev, key@, 0) == insert_position(ev, key@, i as int),
        decreases entries@.len() - i,
    {
        if entries[i].0 == key {
            entries.set(i, (key, value));
            assert(entries_view(entries@) =~= ev.update(i as int, (ev[i as int].0, value)));
            return;
        }
        if crate::text::less_text(&key, &entries[i].0) {
            let ghost k = key@;
            entries.insert(i, (key, value));
            assert(entries_view(entries@) =~= ev.insert(i as int, (k, value)));
            return;
        }
        i = i + 1;
    }
    let ghost k = key@;
    entries.push((key, value));
    assert(entries_view(entries@) =~= ev.insert(ev.len() as int, (k, value)));
}

} // verus!
