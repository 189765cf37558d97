//! Where a port sits in the IOKit registry: the names of the entries above it,
//! and the bus index that an `hpm<N>` entry among them gives it (M3 and later).

use vstd::prelude::*;
use vstd::string::*;
use crate::ioreg::{entry_id, string_or_empty};
use crate::plist_tree::{PlistDict, PlistNode, dict_get, dict_lookup, find_key, first_key_index};
use crate::text::{str_starts_with, views};

verus! {

/// Whether `c` is an ASCII decimal digit.
pub open spec fn is_digit(c: char) -> bool {
    '0' <= c <= '9'
}

/// The value of a string of decimal digits.
pub open spec fn digits_value(s: Seq<char>) -> int
    decreases s.len(),
{
    if s.len() == 0 {
        0
    } else {
        digits_value(s.drop_last()) * 10 + (s.last() as int - '0' as int)
    }
}

/// The bus index that a registry entry name gives: `Some(N)` for `hpm<N>`,
/// where `<N>` is one or more decimal digits whose value fits in `i64`, and
/// `None` for any other name.
pub open spec fn hpm_bus_of(name: Seq<char>) -> Option<i64> {
    let p = "hpm"@;
    let rest = name.subrange(p.len() as int, name.len() as int);
    if p.len() < name.len() && name.subrange(0, p.len() as int) == p && (forall|i: int|
        0 <= i < rest.len() ==> is_digit(#[trigger] rest[i])) && digits_value(rest) <= i64::MAX {
        Some(digits_value(rest) as i64)
    } else {
        None
    }
}

/// The bus index of a port from the names of the entries above it, outermost
/// first: that of the nearest `hpm<N>` entry, or `None` when there is none.
pub open spec fn bus_of_chain(names: Seq<Seq<char>>) -> Option<i64>
    decreases names.len(),
{
    if names.len() == 0 {
        None
    } else {
        match hpm_bus_of(names.last()) {
            Some(b) => Some(b),
            None => bus_of_chain(names.drop_last()),
        }
    }
}

/// Whether the dictionary is the registry entry with this ID.
pub open spec fn is_entry(d: PlistDict, id: u64) -> bool {
    dict_lookup(d, "IORegistryEntryID"@) is Some && entry_id(d) == id
}

/// The names of the entries above the entry `id` in the registry tree `n`,
/// outermost first, at the first place where the entry occurs when the tree
/// is walked in preorder (an entry, then the trees of its
/// `IORegistryEntryChildren`); `None` when it does not occur. An array at the
/// top is a list of trees and adds no name.
pub open spec fn ancestry(n: PlistNode, id: u64) -> Option<Seq<Seq<char>>>
    decreases n,
{
    match n {
        PlistNode::Array(items) => ancestry_in(items@, id),
        PlistNode::Dictionary(d) => if is_entry(d, id) {
            Some(seq![])
        } else {
            match first_key_index(d.keys@, "IORegistryEntryChildren"@) {
                Some(i) => if 0 <= i < d.values@.len() {
                    match d.values@[i] {
                        PlistNode::Array(children) => match ancestry_in(children@, id) {
                            Some(chain) => Some(
                                seq![string_or_empty(dict_lookup(d, "IORegistryEntryName"@))]
                                    + chain,
                            ),
                            None => None,
                        },
                        _ => None,
                    }
                } else {
                    None
                },
                None => None,
            }
        },
        _ => None,
    }
}

/// The same search in a list of trees, tree after tree.
pub open spec fn ancestry_in(ns: Seq<PlistNode>, id: u64) -> Option<Seq<Seq<char>>>
    decreases ns,
{
    if ns.len() == 0 {
        None
    } else {
        match ancestry(ns[0], id) {
            Some(chain) => Some(chain),
            None => ancestry_in(ns.subrange(1, ns.len() as int), id),
        }
    }
}

/// The bus index of the port with this registry ID, given the registry tree
/// (`None` when the tree could not be read).
pub open spec fn port_bus_index(registry: Option<PlistNode>, id: u64) -> Option<i64> {
    match registry {
        Some(tree) => match ancestry(tree, id) {
            Some(chain) => bus_of_chain(chain),
            None => None,
        },
        None => None,
    }
}

proof fn lemma_digits_value_prefix(s: Seq<char>, m: int)
    requires
        0 <= m <= s.len(),
        forall|i: int| 0 <= i < s.len() ==> is_digit(#[trigger] s[i]),
    ensures
        0 <= digits_value(s.subrange(0, m)) <= digits_value(s),
    decreases s.len(),
{
    if m == s.len() {
        assert(s.subrange(0, m) =~= s);
        lemma_digits_value_nonneg(s);
    } else {
        let t = s.drop_last();
        lemma_digits_value_prefix(t, m);
        assert(t.subrange(0, m) =~= s.subrange(0, m));
        lemma_digits_value_nonneg(t);
    }
}

proof fn lemma_digits_value_nonneg(s: Seq<char>)
    requires
        forall|i: int| 0 <= i < s.len() ==> is_digit(#[trigger] s[i]),
    ensures
        0 <= digits_value(s),
    decreases s.len(),
{
    if s.len() > 0 {
        let t = s.drop_last();
        assert forall|i: int| 0 <= i < t.len() implies is_digit(#[trigger] t[i]) by {
            assert(t[i] == s[i]);
        }
        lemma_digits_value_nonneg(t);
        assert(is_digit(s[s.len() - 1]));
    }
}

/// The bus index that a registry entry name gives (see `hpm_bus_of`).
pub fn hpm_bus_index(name: &str) -> (r: Option<i64>)
    ensures
        r == hpm_bus_of(name@),
{
    let prefix = "hpm";
    proof {
        reveal_strlit("hpm");
    }
    if !str_starts_with(name, prefix) {
        return None;
    }
    let n = name.unicode_len();
    let k = prefix.unicode_len();
    if n <= k {
        return None;
    }
    let ghost rest = name@.subrange(k as int, n as int);
    let mut v: i64 = 0;
    let mut i: usize = k;
    assert(rest.subrange(0, 0) =~= Seq::<char>::empty());
    while i < n
        invariant
            k == "hpm"@.len(),
            n == name@.len(),
            k < n,
            k <= i <= n,
            rest == name@.subrange(k as int, n as int),
            forall|j: int| 0 <= j < i - k ==> is_digit(#[trigger] rest[j]),
            v == digits_value(rest.subrange(0, i - k)),
            0 <= v,
        decreases n - i,
    {
        let c = name.get_char(i);
        assert(rest[i - k] == c);
        if !('0' <= c && c <= '9') {
            return None;
        }
        let d: i64 = (c as u32 - '0' as u32) as i64;
        assert(0 <= d <= 9 && d == c as int - '0' as int);
        let ghost next = rest.subrange(0, i - k + 1);
        proof {
            assert(next.drop_last() =~= rest.subrange(0, i - k));
            assert(next.last() == c);
        }
        if v > 922337203685477580 || (v == 922337203685477580 && d > 7) {
            proof {
                if forall|j: int| 0 <= j < rest.len() ==> is_digit(#[trigger] rest[j]) {
                    lemma_digits_value_prefix(rest, i - k + 1);
                }
            }
            return None;
        }
        v = v * 10 + d;
        i = i + 1;
    }
    assert(rest.subrange(0, n - k) =~= rest);
    Some(v)
}

/// The bus index from the names above a port, outermost first (see `bus_of_chain`).
pub fn bus_index_from_chain(names: &Vec<String>) -> (r: Option<i64>)
    ensures
        r == bus_of_chain(views(names@)),
{
    let mut i: usize = names.len();
    assert(names@.subrange(0, i as int) =~= names@);
    while i > 0
        invariant
            i <= names@.len(),
            bus_of_chain(views(names@)) == bus_of_chain(views(names@.subrange(0, i as int))),
        decreases i,
    {
        let ghost s = views(names@.subrange(0, i as int));
        assert(s.last() == names@[i - 1]@);
        assert(s.drop_last() =~= views(names@.subrange(0, i - 1)));
        match hpm_bus_index(names[i - 1].as_str()) {
            Some(b) => {
                return Some(b);
            },
            None => {},
        }
        i = i - 1;
    }
    assert(views(names@.subrange(0, 0)) =~= Seq::<Seq<char>>::empty());
    None
}

/// The view of an optional list of names.
pub open spec fn opt_views(r: Option<Vec<String>>) -> Option<Seq<Seq<char>>> {
    match r {
        Some(v) => Some(views(v@)),
        None => None,
    }
}

fn is_entry_exec(d: &PlistDict, id: u64) -> (r: bool)
    ensures
        r == is_entry(*d, id),
{
    match dict_get(d, "IORegistryEntryID") {
        Some(PlistNode::Integer(_, Some(u))) => *u == id,
        Some(_) => id == 0,
        None => false,
    }
}

/// The names of the entries above the entry `id` in the tree `n` (see `ancestry`).
pub fn find_ancestry(n: &PlistNode, id: u64) -> (r: Option<Vec<String>>)
    ensures
        opt_views(r) == ancestry(*n, id),
    decreases n,
{
    let ghost mut k: int = 0;
    let (items, above): (&Vec<PlistNode>, Option<String>) = match n {
        PlistNode::Array(items) => (items, None),
        PlistNode::Dictionary(d) => {
            if is_entry_exec(d, id) {
                let chain: Vec<String> = Vec::new();
                assert(views(chain@) =~= Seq::<Seq<char>>::empty());
                return Some(chain);
            }
            let name = match dict_get(d, "IORegistryEntryName") {
                Some(PlistNode::String(s)) => s.clone(),
                _ => String::new(),
            };
            match find_key(d, "IORegistryEntryChildren") {
                Some(i) => {
                    if i < d.values.len() {
                        match &d.values[i] {
                            PlistNode::Array(children) => {
                                proof {
                                    k = i as int;
                                }
                                (children, Some(name))
                            },
                            _ => {
                                return None;
                            },
                        }
                    } else {
                        return None;
                    }
                },
                None => {
                    return None;
                },
            }
        },
        _ => {
            return None;
        },
    };
    let len = items.len();
    let mut j: usize = 0;
    assert(items@.subrange(0, len as int) =~= items@);
    while j < len
        invariant
            len == items@.len(),
            j <= len,
            ancestry_in(items@, id) == ancestry_in(items@.subrange(j as int, len as int), id),
            match *n {
                PlistNode::Array(a) => a == *items && above is None,
                PlistNode::Dictionary(d) => {
                    &&& 0 <= k < d.values@.len()
                    &&& first_key_index(d.keys@, "IORegistryEntryChildren"@) == Some(k)
                    &&& d.values@[k] == PlistNode::Array(*items)
                    &&& !is_entry(d, id)
                    &&& above is Some
                    &&& above->0@ == string_or_empty(dict_lookup(d, "IORegistryEntryName"@))
                },
                _ => false,
            },
        decreases len - j,
    {
        let ghost tail = items@.subrange(j as int, len as int);
        assert(tail[0] == items@[j as int]);
        assert(tail.subrange(1, tail.len() as int) =~= items@.subrange(j + 1, len as int));
        proof {
            if n is Array {
                assert(decreases_to!(*n => n->Array_0));
            } else {
                let d = n->Dictionary_0;
                assert(decreases_to!(*n => n->Dictionary_0));
                assert(decreases_to!(d => d.values));
                assert(decreases_to!(d.values => d.values@));
                assert(decreases_to!(d.values@ => d.values@[k]));
                assert(decreases_to!(d.values@[k] => d.values@[k]->Array_0));
            }
            assert(decreases_to!(*items => items@));
            assert(decreases_to!(items@ => items@[j as int]));
        }
        match find_ancestry(&items[j], id) {
            Some(chain) => {
                match above {
                    Some(name) => {
                        let mut full = chain;
                        full.insert(0, name);
                        assert(views(full@) =~= seq![name@] + views(chain@));
                        return Some(full);
                    },
                    None => {
                        return Some(chain);
                    },
                }
            },
            None => {},
        }
        j = j + 1;
    }
    None
}

} // verus!
