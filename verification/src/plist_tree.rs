//! Property-list trees as read from `ioreg -a` output, and the typed getters
//! the registry parsers use on their dictionaries.

use vstd::prelude::*;
use vstd::string::*;
use crate::text::views;

verus! {

/// One node of a property list.
pub enum PlistNode {
    Array(Vec<PlistNode>),
    Dictionary(PlistDict),
    Boolean(bool),
    Data(Vec<u8>),
    /// A real number, held as what converting it to `i64` gives: truncated
    /// toward zero, saturated at the `i64` bounds, NaN as 0.
    Real(i64),
    /// An integer, as its `i64` reading and its `u64` reading (each present
    /// when the value fits that type).
    Integer(Option<i64>, Option<u64>),
    String(String),
    /// A date, a UID, or another kind of node that is never read.
    Other,
}

/// A dictionary: its keys, in order, and the value of each key at the same index.
pub struct PlistDict {
    pub keys: Vec<String>,
    pub values: Vec<PlistNode>,
}

/// What `plist` reads from these bytes (any encoding), or `None` when they
/// are not a property list.
pub uninterp spec fn plist_from_bytes(bytes: Seq<u8>) -> Option<PlistNode>;

#[verifier::external_type_specification]
#[verifier::external_body]
pub struct ExPlistValue(plist::Value);

/// Converts a `plist::Value` into a `PlistNode`, node for node; dates, UIDs and
/// kinds added to `plist::Value` later become `Other`.
#[verifier::external_body]
fn node_from_value(v: &plist::Value) -> PlistNode {
    match v {
        plist::Value::Array(a) => PlistNode::Array(a.iter().map(node_from_value).collect()),
        plist::Value::Dictionary(d) => PlistNode::Dictionary(
            PlistDict {
                keys: d.keys().cloned().collect(),
                values: d.values().map(node_from_value).collect(),
            },
        ),
        plist::Value::Boolean(b) => PlistNode::Boolean(*b),
        plist::Value::Data(d) => PlistNode::Data(d.clone()),
        plist::Value::Real(r) => PlistNode::Real(*r as i64),
        plist::Value::Integer(i) => PlistNode::Integer(i.as_signed(), i.as_unsigned()),
        plist::Value::String(s) => PlistNode::String(s.clone()),
        _ => PlistNode::Other,
    }
}

/// Reads a property list of any encoding (XML, binary, ASCII) from bytes.
/// Calls `plist::Value::from_reader`; the result is `None` exactly when it
/// reports an error, and otherwise the tree it read, which depends on the
/// bytes alone (`plist_from_bytes`).
#[verifier::external_body]
pub(crate) fn parse_plist(bytes: &[u8]) -> (r: Option<PlistNode>)
    ensures
        r == plist_from_bytes(bytes@),
{
    match plist::Value::from_reader(std::io::Cursor::new(bytes)) {
        Ok(v) => Some(node_from_value(&v)),
        Err(_) => None,
    }
}

/// Index of the first key that reads `key`.
pub open spec fn first_key_index(keys: Seq<String>, key: Seq<char>) -> Option<int>
    decreases keys.len(),
{
    if keys.len() == 0 {
        None
    } else {
        match first_key_index(keys.drop_last(), key) {
            Some(i) => Some(i),
            None => if keys.last()@ == key {
                Some(keys.len() - 1)
            } else {
                None
            },
        }
    }
}

/// The value stored under `key`.
pub open spec fn dict_lookup(d: PlistDict, key: Seq<char>) -> Option<PlistNode> {
    match first_key_index(d.keys@, key) {
        Some(i) => if i < d.values@.len() {
            Some(d.values@[i])
        } else {
            None
        },
        None => None,
    }
}

/// A string value under `key`.
pub open spec fn spec_get_string(d: PlistDict, key: Seq<char>) -> Option<Seq<char>> {
    match dict_lookup(d, key) {
        Some(PlistNode::String(s)) => Some(s@),
        _ => None,
    }
}

/// An integer under `key`: an integer that fits in `i64`, a real converted to
/// `i64`, or a boolean as 1 / 0.
pub open spec fn spec_get_integer(d: PlistDict, key: Seq<char>) -> Option<i64> {
    match dict_lookup(d, key) {
        Some(PlistNode::Integer(signed, _)) => signed,
        Some(PlistNode::Real(v)) => Some(v),
        Some(PlistNode::Boolean(b)) => Some(if b { 1i64 } else { 0i64 }),
        _ => None,
    }
}

/// A boolean under `key`: a boolean, or an integer that fits in `i64`, true when non-zero.
pub open spec fn spec_get_boolean(d: PlistDict, key: Seq<char>) -> Option<bool> {
    match dict_lookup(d, key) {
        Some(PlistNode::Boolean(b)) => Some(b),
        Some(PlistNode::Integer(Some(v), _)) => Some(v != 0),
        _ => None,
    }
}

/// The strings of a list of nodes, in order, skipping the nodes that are not strings.
pub open spec fn strings_of(nodes: Seq<PlistNode>) -> Seq<Seq<char>>
    decreases nodes.len(),
{
    if nodes.len() == 0 {
        seq![]
    } else {
        let rest = strings_of(nodes.drop_last());
        match nodes.last() {
            PlistNode::String(s) => rest.push(s@),
            _ => rest,
        }
    }
}

/// The strings of an array under `key`; empty when there is no array.
pub open spec fn spec_get_string_array(d: PlistDict, key: Seq<char>) -> Seq<Seq<char>> {
    match dict_lookup(d, key) {
        Some(PlistNode::Array(a)) => strings_of(a@),
        _ => seq![],
    }
}

/// The unsigned reading of an integer node (`as_unsigned_integer`).
pub open spec fn unsigned_of(n: PlistNode) -> Option<u64> {
    match n {
        PlistNode::Integer(_, u) => u,
        _ => None,
    }
}

/// The index of the first key equal to `key`.
pub fn find_key(d: &PlistDict, key: &str) -> (r: Option<usize>)
    ensures
        match r {
            Some(i) => first_key_index(d.keys@, key@) == Some(i as int),
            None => first_key_index(d.keys@, key@) is None,
        },
{
    let n = d.keys.len();
    let mut i: usize = 0;
    assert(d.keys@.take(0) =~= Seq::<String>::empty());
    while i < n
        invariant
            n == d.keys@.len(),
            i <= n,
            first_key_index(d.keys@.take(i as int), key@) is None,
        decreases n - i,
    {
        assert(d.keys@.take(i + 1).drop_last() =~= d.keys@.take(i as int));
        if crate::text::str_equals(d.keys[i].as_str(), key) {
            proof {
                lemma_first_key_index_prefix(d.keys@, key@, i as int + 1);
            }
            return Some(i);
        }
        i = i + 1;
    }
    assert(d.keys@.take(n as int) =~= d.keys@);
    None
}

/// The first match in a prefix that holds a match is the first match overall.
proof fn lemma_first_key_index_prefix(keys: Seq<String>, key: Seq<char>, k: int)
    requires
        0 <= k <= keys.len(),
        first_key_index(keys.take(k), key) is Some,
    ensures
        first_key_index(keys, key) == first_key_index(keys.take(k), key),
    decreases keys.len() - k,
{
    if k < keys.len() {
        assert(keys.take(k + 1).drop_last() =~= keys.take(k));
        lemma_first_key_index_prefix(keys, key, k + 1);
    } else {
        assert(keys.take(k) =~= keys);
    }
}

/// The value stored under `key`.
pub fn dict_get<'a>(d: &'a PlistDict, key: &str) -> (r: Option<&'a PlistNode>)
    ensures
        match r {
            Some(v) => dict_lookup(*d, key@) == Some(*v),
            None => dict_lookup(*d, key@) is None,
        },
{
    match find_key(d, key) {
        Some(i) => {
            if i < d.values.len() {
                Some(&d.values[i])
            } else {
                None
            }
        },
        None => None,
    }
}

pub fn get_string(d: &PlistDict, key: &str) -> (r: Option<String>)
    ensures
        match r {
            Some(s) => spec_get_string(*d, key@) == Some(s@),
            None => spec_get_string(*d, key@) is None,
        },
{
    match dict_get(d, key) {
        Some(PlistNode::String(s)) => Some(s.clone()),
        _ => None,
    }
}

pub fn get_integer(d: &PlistDict, key: &str) -> (r: Option<i64>)
    ensures
        r == spec_get_integer(*d, key@),
{
    match dict_get(d, key) {
        Some(PlistNode::Integer(signed, _)) => *signed,
        Some(PlistNode::Real(v)) => Some(*v),
        Some(PlistNode::Boolean(b)) => Some(if *b { 1 } else { 0 }),
        _ => None,
    }
}

pub fn get_boolean(d: &PlistDict, key: &str) -> (r: Option<bool>)
    ensures
        r == spec_get_boolean(*d, key@),
{
    match dict_get(d, key) {
        Some(PlistNode::Boolean(b)) => Some(*b),
        Some(PlistNode::Integer(Some(v), _)) => Some(*v != 0),
        _ => None,
    }
}

pub fn get_string_array(d: &PlistDict, key: &str) -> (r: Vec<String>)
    ensures
        views(r@) == spec_get_string_array(*d, key@),
{
    let mut out: Vec<String> = Vec::new();
    match dict_get(d, key) {
        Some(PlistNode::Array(a)) => {
            let n = a.len();
            let mut i: usize = 0;
            assert(views(out@) =~= strings_of(a@.take(0)));
            while i < n
                invariant
                    n == a@.len(),
                    i <= n,
                    views(out@) == strings_of(a@.take(i as int)),
                decreases n - i,
            {
                assert(a@.take(i + 1).drop_last() =~= a@.take(i as int));
                match &a[i] {
                    PlistNode::String(s) => {
                        out.push(s.clone());
                    },
                    _ => {},
                }
                assert(views(out@) =~= strings_of(a@.take(i + 1)));
                i = i + 1;
            }
            assert(a@.take(n as int) =~= a@);
        },
        _ => {
            assert(views(out@) =~= Seq::<Seq<char>>::empty());
        },
    }
    out
}

} // verus!
