//! JSON values as a tree of plain values (the shape of Apple's download responses),
//! with the lookups and the conversion to property lists that the signing logic makes.
use vstd::prelude::*;
use crate::property_list::PlistNode;
use crate::text::{chars_of, decimal_signed, spec_decimal_signed, string_from_chars};

verus! {

/// A JSON number.
#[derive(Debug, Clone)]
pub struct JsonNumber {
    /// The number, when it is an integer (within the range of `i64` or of `u64`).
    pub integer: Option<i128>,
    /// The number read as a double, in its shortest decimal rendering that reads back to
    /// the same double (Rust's `Display`).
    pub real: String,
    /// The number as JSON text.
    pub text: String,
    /// The number read as a double and then converted to `i64` (toward zero, saturating).
    pub whole: i64,
}

/// A JSON value.  Object members keep their order; keys are distinct and, for values
/// read from text, in ascending order.
#[derive(Debug)]
pub enum JsonNode {
    Null,
    Bool(bool),
    Number(JsonNumber),
    String(String),
    Array(Vec<JsonNode>),
    Object(Vec<(String, JsonNode)>),
}

/// The member called `key` among object members, searching from position `i`.
pub open spec fn members_get_from(members: Seq<(String, JsonNode)>, key: Seq<char>, i: int) -> Option<JsonNode>
    decreases members.len() - i,
{
    if i < 0 || i >= members.len() {
        None
    } else if members[i].0@ == key {
        Some(members[i].1)
    } else {
        members_get_from(members, key, i + 1)
    }
}

/// The member called `key` when the value is an object.
pub open spec fn json_get(node: JsonNode, key: Seq<char>) -> Option<JsonNode> {
    match node {
        JsonNode::Object(members) => members_get_from(members@, key, 0),
        _ => None,
    }
}

/// The text of a string value.
pub open spec fn json_text(node: Option<JsonNode>) -> Option<Seq<char>> {
    match node {
        Some(JsonNode::String(s)) => Some(s@),
        _ => None,
    }
}

/// `serde_json::Value::as_i64`: the integer when it fits an `i64`.
pub open spec fn number_as_i64(n: JsonNumber) -> Option<int> {
    match n.integer {
        Some(i) => if i64::MIN <= i <= i64::MAX { Some(i as int) } else { None },
        None => None,
    }
}

/// `serde_json::Value::as_u64`: the integer when it fits a `u64`.
pub open spec fn number_as_u64(n: JsonNumber) -> Option<int> {
    match n.integer {
        Some(i) => if 0 <= i <= u64::MAX { Some(i as int) } else { None },
        None => None,
    }
}

/// The member called `key` of an object value.
pub fn json_member<'a>(node: &'a JsonNode, key: &str) -> (r: Option<&'a JsonNode>)
    ensures
        match json_get(*node, key@) {
            Some(v) => r matches Some(x) && *x == v,
            None => r is None,
        },
{
    match node {
        JsonNode::Object(members) => {
            let wanted = key.to_owned();
            let mut i: usize = 0;
            while i < members.len()
                invariant
                    i <= members@.len(),
                    *node == JsonNode::Object(*members),
                    wanted@ == key@,
                    json_get(*node, key@) == members_get_from(members@, key@, i as int),
                decreases members@.len() - i,
            {
                if members[i].0 == wanted {
                    return Some(&members[i].1);
                }
                i = i + 1;
            }
            None
        },
        _ => None,
    }
}

/// The text of the string member called `key` of an object value.
pub fn json_member_text(node: &JsonNode, key: &str) -> (r: Option<String>)
    ensures
        crate::text::opt_text(r) == json_text(json_get(*node, key@)),
{
    match json_member(node, key) {
        Some(JsonNode::String(s)) => Some(s.clone()),
        _ => None,
    }
}

/// Whether `p` is the property-list form of `j`: strings stay strings, an integer that
/// fits an `i64` becomes an integer, another number a real, booleans stay booleans, null
/// becomes the empty string, and arrays and objects convert member by member.
pub open spec fn plist_form(j: JsonNode, p: PlistNode) -> bool
    decreases j,
{
    match j {
        JsonNode::String(s) => p matches PlistNode::String(t) && t@ == s@,
        JsonNode::Number(n) => match number_as_i64(n) {
            Some(i) => p matches PlistNode::Integer(k) && k == i,
            None => p matches PlistNode::Real(t) && t@ == n.real@,
        },
        JsonNode::Bool(b) => p matches PlistNode::Boolean(c) && c == b,
        JsonNode::Null => p matches PlistNode::String(t) && t@.len() == 0,
        JsonNode::Array(items) => p matches PlistNode::Array(out) && out@.len() == items@.len()
            && forall|i: int| 0 <= i < items@.len() ==> plist_form(#[trigger] items@[i], out@[i]),
        JsonNode::Object(members) => p matches PlistNode::Dictionary(out) && plist_members_form(members@, out@),
    }
}

/// Whether the dictionary entries are the property-list form of the object members,
/// member by member and in order.
pub open spec fn plist_members_form(members: Seq<(String, JsonNode)>, out: Seq<(String, PlistNode)>) -> bool
    decreases members,
{
    out.len() == members.len() && forall|i: int| 0 <= i < members.len() ==> (#[trigger] out[i]).0@ == members[i].0@
        && plist_form(members[i].1, out[i].1)
}

/// The property-list form of a JSON value (see [`plist_form`]).
pub fn json_value_to_plist(value: &JsonNode) -> (p: PlistNode)
    ensures
        plist_form(*value, p),
    decreases *value, 1nat,
{
    match value {
        JsonNode::String(s) => PlistNode::String(s.clone()),
        JsonNode::Number(n) => {
            match n.integer {
                Some(i) => {
                    if -9223372036854775808i128 <= i && i <= 9223372036854775807i128 {
                        PlistNode::Integer(i)
                    } else {
                        PlistNode::Real(n.real.clone())
                    }
                },
                None => PlistNode::Real(n.real.clone()),
            }
        },
        JsonNode::Bool(b) => PlistNode::Boolean(*b),
        JsonNode::Null => PlistNode::String(String::new()),
        JsonNode::Array(items) => {
            let mut out: Vec<PlistNode> = Vec::new();
            let mut i: usize = 0;
            while i < items.len()
                invariant
                    i <= items@.len(),
                    *value == JsonNode::Array(*items),
                    out@.len() == i,
                    forall|k: int| 0 <= k < i ==> plist_form(#[trigger] items@[k], out@[k]),
                decreases items@.len() - i,
            {
                proof {
                    broadcast use vstd::std_specs::vec::axiom_vec_index_decreases;
                    assert(decreases_to!(*items => items[i as int]));
                    assert((*value)->Array_0 == *items);
                    assert(decreases_to!(*value => (*value)->Array_0));
                    assert(decreases_to!(*value => items[i as int]));
                }
                let p = json_value_to_plist(&items[i]);
                out.push(p);
                i = i + 1;
            }
            PlistNode::Array(out)
        },
        JsonNode::Object(members) => {
            let out = json_map_to_plist_dict(members);
            PlistNode::Dictionary(out)
        },
    }
}

/// The property-list dictionary entries of JSON object members, in order (see
/// [`plist_members_form`]).
pub fn json_map_to_plist_dict(members: &Vec<(String, JsonNode)>) -> (out: Vec<(String, PlistNode)>)
    ensures
        plist_members_form(members@, out@),
    decreases *members, 0nat,
{
    let mut out: Vec<(String, PlistNode)> = Vec::new();
    let mut i: usize = 0;
    while i < members.len()
        invariant
            i <= members@.len(),
            out@.len() == i,
            forall|k: int| 0 <= k < i ==> (#[trigger] out@[k]).0@ == members@[k].0@ && plist_form(members@[k].1, out@[k].1),
        decreases members@.len() - i,
    {
        proof {
            broadcast use vstd::std_specs::vec::axiom_vec_index_decreases;
            assert(decreases_to!(*members => members[i as int]));
        }
        let p = json_value_to_plist(&members[i].1);
        out.push((members[i].0.clone(), p));
        i = i + 1;
    }
    out
}

/// Whether two JSON values hold the same data.
pub open spec fn json_same(a: JsonNode, b: JsonNode) -> bool
    decreases a,
{
    match a {
        JsonNode::Null => b is Null,
        JsonNode::Bool(x) => b matches JsonNode::Bool(y) && x == y,
        JsonNode::Number(n) => b matches JsonNode::Number(m) && n.integer == m.integer && n.real@ == m.real@
            && n.text@ == m.text@ && n.whole == m.whole,
        JsonNode::String(s) => b matches JsonNode::String(t) && s@ == t@,
        JsonNode::Array(items) => b matches JsonNode::Array(other) && other@.len() == items@.len()
            && forall|i: int| 0 <= i < items@.len() ==> json_same(#[trigger] items@[i], other@[i]),
        JsonNode::Object(members) => b matches JsonNode::Object(other) && members_same(members@, other@),
    }
}

/// Whether two lists of object members hold the same data, member by member.
pub open spec fn members_same(a: Seq<(String, JsonNode)>, b: Seq<(String, JsonNode)>) -> bool
    decreases a,
{
    b.len() == a.len() && forall|i: int| 0 <= i < a.len() ==> (#[trigger] b[i]).0@ == a[i].0@ && json_same(a[i].1, b[i].1)
}

/// A copy of a JSON value.
pub fn json_clone(value: &JsonNode) -> (r: JsonNode)
    ensures
        json_same(*value, r),
    decreases *value, 1nat,
{
    match value {
        JsonNode::Null => JsonNode::Null,
        JsonNode::Bool(b) => JsonNode::Bool(*b),
        JsonNode::Number(n) => JsonNode::Number(JsonNumber { integer: n.integer, real: n.real.clone(), text: n.text.clone(), whole: n.whole }),
        JsonNode::String(s) => JsonNode::String(s.clone()),
        JsonNode::Array(items) => {
            let mut out: Vec<JsonNode> = Vec::new();
            let mut i: usize = 0;
            while i < items.len()
                invariant
                    i <= items@.len(),
                    *value == JsonNode::Array(*items),
                    out@.len() == i,
                    forall|k: int| 0 <= k < i ==> json_same(#[trigger] items@[k], out@[k]),
                decreases items@.len() - i,
            {
                proof {
                    broadcast use vstd::std_specs::vec::axiom_vec_index_decreases;
                    assert(decreases_to!(*items => items[i as int]));
                    assert((*value)->Array_0 == *items);
                    assert(decreases_to!(*value => (*value)->Array_0));
                    assert(decreases_to!(*value => items[i as int]));
                }
                let c = json_clone(&items[i]);
                out.push(c);
                i = i + 1;
            }
            JsonNode::Array(out)
        },
        JsonNode::Object(members) => JsonNode::Object(json_members_clone(members)),
    }
}

/// A copy of a list of object members.
pub fn json_members_clone(members: &Vec<(String, JsonNode)>) -> (r: Vec<(String, JsonNode)>)
    ensures
        members_same(members@, r@),
    decreases *members, 0nat,
{
    let mut out: Vec<(String, JsonNode)> = Vec::new();
    let mut i: usize = 0;
    while i < members.len()
        invariant
            i <= members@.len(),
            out@.len() == i,
            forall|k: int| 0 <= k < i ==> (#[trigger] out@[k]).0@ == members@[k].0@ && json_same(members@[k].1, out@[k].1),
        decreases members@.len() - i,
    {
        proof {
            broadcast use vstd::std_specs::vec::axiom_vec_index_decreases;
            assert(decreases_to!(*members => members[i as int]));
        }
        let c = json_clone(&members[i].1);
        out.push((members[i].0.clone(), c));
        i = i + 1;
    }
    out
}

/// Declares `serde_json::Value` so that the converters below can name it.
#[verifier::external_type_specification]
#[verifier::external_body]
pub struct ExJsonValue(serde_json::Value);

/// Turns a `serde_json::Value` into the equivalent tree, variant for variant.
#[verifier::external_body]
fn node_of_json(value: &serde_json::Value) -> JsonNode {
    match value {
        serde_json::Value::Array(items) => JsonNode::Array(items.iter().map(node_of_json).collect()),
        serde_json::Value::Object(m) => JsonNode::Object(m.iter().map(|(k, v)| (k.clone(), node_of_json(v))).collect()),
        other => scalar_node_of_json(other),
    }
}

/// Turns a `serde_json::Value` that is not a container into the equivalent tree.
#[verifier::external_body]
fn scalar_node_of_json(value: &serde_json::Value) -> JsonNode {
    match value {
        serde_json::Value::Bool(b) => JsonNode::Bool(*b),
        serde_json::Value::String(s) => JsonNode::String(s.clone()),
        serde_json::Value::Number(n) => JsonNode::Number(JsonNumber {
            integer: n.as_i128(),
            real: n.as_f64().map(|f| f.to_string()).unwrap_or_default(),
            text: n.to_string(),
            whole: n.as_f64().map(|f| f as i64).unwrap_or(0),
        }),
        _ => JsonNode::Null,
    }
}

/// The JSON value that `serde_json` reads from the text, or its error message.
pub uninterp spec fn json_parsed(text: Seq<char>) -> Result<JsonNode, Seq<char>>;

/// Reads a JSON value from text.
///
/// Trusted: `serde_json::from_str::<serde_json::Value>`, with the value turned into a tree
/// (object members in `serde_json`'s key order) and the error into its message; both
/// depend on the text alone.
#[verifier::external_body]
pub fn parse_json(text: &str) -> (r: Result<JsonNode, String>)
    ensures
        match json_parsed(text@) {
            Ok(v) => r matches Ok(x) && x == v,
            Err(e) => r matches Err(m) && m@ == e,
        },
{
    serde_json::from_str::<serde_json::Value>(text).map(|v| node_of_json(&v)).map_err(|e| e.to_string())
}

/// The members of the JSON object written in the text, when the text is one.
pub open spec fn json_object_parsed(text: Seq<char>) -> Option<Seq<(String, JsonNode)>> {
    match json_parsed(text) {
        Ok(JsonNode::Object(m)) => Some(m@),
        _ => None,
    }
}

/// Reads a JSON object from text (see [`json_object_parsed`]).
pub fn parse_json_object(text: &str) -> (r: Option<Vec<(String, JsonNode)>>)
    ensures
        match json_object_parsed(text@) {
            Some(m) => r matches Some(v) && v@ == m,
            None => r is None,
        },
{
    match parse_json(text) {
        Ok(JsonNode::Object(m)) => Some(m),
        _ => None,
    }
}

/// Where `insert(key, ..)` on an ordered JSON map puts the key, searching from `i`.
pub open spec fn json_insert_position(members: Seq<(String, JsonNode)>, key: Seq<char>, i: int) -> (bool, int)
    decreases members.len() - i,
{
    if i < 0 || i >= members.len() {
        (false, members.len() as int)
    } else if members[i].0@ == key {
        (true, i)
    } else if crate::text::text_less(key, members[i].0@) {
        (false, i)
    } else {
        json_insert_position(members, key, i + 1)
    }
}

/// Inserts `key: value` into an ordered JSON map: the value replaces that of the member
/// with the key, or the member is inserted in key order.
pub fn json_members_insert(members: &mut Vec<(String, JsonNode)>, key: String, value: JsonNode)
    ensures
        ({
            let (found, pos) = json_insert_position(old(members)@, key@, 0);
            if found {
                final(members)@ == old(members)@.update(pos, (old(members)@[pos].0, value))
            } else {
                final(members)@ == old(members)@.insert(pos, (key, value))
            }
        }),
{
    let mut i: usize = 0;
    while i < members.len()
        invariant
            i <= members@.len(),
            members@ == old(members)@,
            json_insert_position(old(members)@, key@, 0) == json_insert_position(old(members)@, key@, i as int),
        decreases members@.len() - i,
    {
        if members[i].0 == key {
            let name = members[i].0.clone();
            members.set(i, (name, value));
            return;
        }
        if crate::text::less_text(&key, &members[i].0) {
            members.insert(i, (key, value));
            return;
        }
        i = i + 1;
    }
    members.push((key, value));
}

} // verus!
