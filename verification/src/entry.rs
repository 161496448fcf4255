//! Entries and the order on their names.
//!
//! An entry is known by its name alone. Names are ordered the way Rust orders
//! strings: lexicographically by the bytes of their UTF-8 encoding.

use core::cmp::Ordering;
use vstd::prelude::*;
use vstd::std_specs::cmp::{PartialEqSpecImpl, PartialOrdSpecImpl};
use vstd::utf8::{decode_utf8, encode_utf8, encode_utf8_decode_utf8};

verus! {

/// Lexicographic comparison of two byte strings that agree before `from`:
/// `a` is no greater than `b`.
pub open spec fn bytes_le_from(a: Seq<u8>, b: Seq<u8>, from: int) -> bool
    decreases a.len() - from,
{
    if from >= a.len() {
        true
    } else if from >= b.len() {
        false
    } else if a[from] != b[from] {
        a[from] < b[from]
    } else {
        bytes_le_from(a, b, from + 1)
    }
}

/// Lexicographic order on byte strings.
pub open spec fn bytes_le(a: Seq<u8>, b: Seq<u8>) -> bool {
    bytes_le_from(a, b, 0)
}

/// The order on names: lexicographic by the bytes of the UTF-8 encoding.
pub open spec fn name_le(a: Seq<char>, b: Seq<char>) -> bool {
    bytes_le(encode_utf8(a), encode_utf8(b))
}

/// A list of names in ascending order.
pub open spec fn sorted(names: Seq<Seq<char>>) -> bool {
    forall|i: int, j: int| 0 <= i < j < names.len() ==> name_le(names[i], names[j])
}

proof fn lemma_bytes_le_from_refl(a: Seq<u8>, from: int)
    requires
        0 <= from,
    ensures
        bytes_le_from(a, a, from),
    decreases a.len() - from,
{
    if from < a.len() {
        lemma_bytes_le_from_refl(a, from + 1);
    }
}

proof fn lemma_bytes_le_from_total(a: Seq<u8>, b: Seq<u8>, from: int)
    requires
        0 <= from,
    ensures
        bytes_le_from(a, b, from) || bytes_le_from(b, a, from),
    decreases a.len() - from,
{
    if from < a.len() && from < b.len() && a[from] == b[from] {
        lemma_bytes_le_from_total(a, b, from + 1);
    }
}

proof fn lemma_bytes_le_from_trans(a: Seq<u8>, b: Seq<u8>, c: Seq<u8>, from: int)
    requires
        0 <= from,
        bytes_le_from(a, b, from),
        bytes_le_from(b, c, from),
    ensures
        bytes_le_from(a, c, from),
    decreases a.len() - from,
{
    if from < a.len() && from < b.len() && from < c.len() && a[from] == b[from] && b[from]
        == c[from] {
        lemma_bytes_le_from_trans(a, b, c, from + 1);
    }
}

proof fn lemma_bytes_le_from_antisym(a: Seq<u8>, b: Seq<u8>, from: int)
    requires
        0 <= from <= a.len(),
        from <= b.len(),
        bytes_le_from(a, b, from),
        bytes_le_from(b, a, from),
    ensures
        a.len() == b.len(),
        forall|k: int| from <= k < a.len() ==> a[k] == b[k],
    decreases a.len() - from,
{
    if from < a.len() && from < b.len() {
        lemma_bytes_le_from_antisym(a, b, from + 1);
    }
}

/// Every name is no greater than itself.
pub proof fn lemma_name_le_refl(a: Seq<char>)
    ensures
        name_le(a, a),
{
    lemma_bytes_le_from_refl(encode_utf8(a), 0);
}

/// Any two names are comparable.
pub proof fn lemma_name_le_total(a: Seq<char>, b: Seq<char>)
    ensures
        name_le(a, b) || name_le(b, a),
{
    lemma_bytes_le_from_total(encode_utf8(a), encode_utf8(b), 0);
}

/// The order on names is transitive.
pub proof fn lemma_name_le_trans(a: Seq<char>, b: Seq<char>, c: Seq<char>)
    requires
        name_le(a, b),
        name_le(b, c),
    ensures
        name_le(a, c),
{
    lemma_bytes_le_from_trans(encode_utf8(a), encode_utf8(b), encode_utf8(c), 0);
}

/// Two names that are each no greater than the other are the same name.
pub proof fn lemma_name_le_antisym(a: Seq<char>, b: Seq<char>)
    requires
        name_le(a, b),
        name_le(b, a),
    ensures
        a == b,
{
    let x = encode_utf8(a);
    let y = encode_utf8(b);
    lemma_bytes_le_from_antisym(x, y, 0);
    assert(x =~= y);
    encode_utf8_decode_utf8(a);
    encode_utf8_decode_utf8(b);
    assert(decode_utf8(x) == a);
    assert(decode_utf8(y) == b);
}

/// Whether the name `a` is no greater than the name `b`.
pub fn is_name_le(a: &str, b: &str) -> (r: bool)
    ensures
        r == name_le(a@, b@),
{
    let x = a.as_bytes();
    let y = b.as_bytes();
    let mut i: usize = 0;
    while i < x.len() && i < y.len()
        invariant
            i <= x.len(),
            i <= y.len(),
            x@ == encode_utf8(a@),
            y@ == encode_utf8(b@),
            name_le(a@, b@) == bytes_le_from(x@, y@, i as int),
        decreases x.len() - i,
    {
        if x[i] != y[i] {
            return x[i] < y[i];
        }
        i = i + 1;
    }
    i >= x.len()
}

/// How the name `a` stands to the name `b`.
pub open spec fn name_order(a: Seq<char>, b: Seq<char>) -> Ordering {
    if name_le(a, b) && name_le(b, a) {
        Ordering::Equal
    } else if name_le(a, b) {
        Ordering::Less
    } else {
        Ordering::Greater
    }
}

/// Only a name itself stands equal to it, and what holds one way round holds
/// reversed the other way round.
pub proof fn lemma_name_order(a: Seq<char>, b: Seq<char>)
    ensures
        name_order(a, b) == Ordering::Equal <==> a == b,
        name_order(a, b) == Ordering::Less <==> name_order(b, a) == Ordering::Greater,
{
    lemma_name_le_refl(a);
    lemma_name_le_total(a, b);
    if name_le(a, b) && name_le(b, a) {
        lemma_name_le_antisym(a, b);
    }
}

/// One candidate, known by its name. Two entries are equal if their names
/// are, and entries are ordered as their names are.
#[derive(Debug, Eq, Ord)]
pub struct Entry {
    name: String,
}

impl View for Entry {
    type V = Seq<char>;

    closed spec fn view(&self) -> Seq<char> {
        self.name@
    }
}

/// The names of a list of entries, in the list's order.
pub open spec fn names(entries: Seq<Entry>) -> Seq<Seq<char>> {
    Seq::new(entries.len(), |i: int| entries[i]@)
}

/// The texts of a list of strings, in the list's order.
pub open spec fn texts(list: Seq<String>) -> Seq<Seq<char>> {
    Seq::new(list.len(), |i: int| list[i]@)
}

impl Entry {
    /// The entry of the given name.
    pub fn new(name: String) -> (e: Entry)
        ensures
            e@ == name@,
    {
        Entry { name }
    }

    /// The entry's name.
    pub fn name(&self) -> (s: &str)
        ensures
            s@ == self@,
    {
        self.name.as_str()
    }

    /// Whether the entry's name is one of `list`.
    pub fn is_in(&self, list: &Vec<String>) -> (found: bool)
        ensures
            found == texts(list@).contains(self@),
    {
        let mut at: usize = 0;
        while at < list.len()
            invariant
                at <= list.len(),
                forall|k: int| 0 <= k < at ==> texts(list@)[k] != self@,
            decreases list.len() - at,
        {
            if list[at] == self.name {
                assert(texts(list@)[at as int] == self@);
                return true;
            }
            at = at + 1;
        }
        false
    }
}

impl PartialEq for Entry {
    fn eq(&self, other: &Entry) -> (r: bool) {
        self.name == other.name
    }
}

impl PartialEqSpecImpl for Entry {
    open spec fn obeys_eq_spec() -> bool {
        true
    }

    open spec fn eq_spec(&self, other: &Entry) -> bool {
        self@ == other@
    }
}

impl PartialOrd for Entry {
    fn partial_cmp(&self, other: &Entry) -> (r: Option<Ordering>) {
        let le = is_name_le(self.name.as_str(), other.name.as_str());
        let ge = is_name_le(other.name.as_str(), self.name.as_str());
        proof {
            lemma_name_le_total(self@, other@);
        }
        if le && ge {
            Some(Ordering::Equal)
        } else if le {
            Some(Ordering::Less)
        } else {
            Some(Ordering::Greater)
        }
    }
}

impl PartialOrdSpecImpl for Entry {
    open spec fn obeys_partial_cmp_spec() -> bool {
        true
    }

    open spec fn partial_cmp_spec(&self, other: &Entry) -> Option<Ordering> {
        Some(name_order(self@, other@))
    }
}

impl Clone for Entry {
    fn clone(&self) -> (e: Entry)
        ensures
            e@ == self@,
    {
        Entry { name: self.name.clone() }
    }
}

} // verus!
