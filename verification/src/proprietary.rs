//! Proprietary keys: the namespace for entries outside the standard schema.
//!
//! A key is a prefix that a feature owns, a subtype, and key data. On the
//! wire it is the type byte `0xFC`, the prefix with its length before it, the
//! subtype, and the key data; lengths and subtype are compact-size integers.

use vstd::prelude::*;

use crate::bytes;
use crate::encoding::{
    compact_size, lemma_compact_size_shape, lemma_read_written_compact_size,
    lemma_written_as_read, read_compact_size, read_compact_size_at, write_compact_size,
};
use crate::error::Error;

verus! {

/// The type byte that opens every proprietary key.
pub const PROPRIETARY_TYPE: u8 = 0xFC;

/// A proprietary key as plain values.
pub struct KeyTriple {
    /// The prefix that names the owner of the key.
    pub prefix: Seq<u8>,
    /// The subtype, which the owner gives a meaning.
    pub subtype: u64,
    /// The key data.
    pub key: Seq<u8>,
}

/// The wire form of a key.
pub open spec fn wire(k: KeyTriple) -> Seq<u8> {
    seq![PROPRIETARY_TYPE] + compact_size(k.prefix.len()) + k.prefix + compact_size(
        k.subtype as nat,
    ) + k.key
}

/// The key that a wire form stands for; `None` where the bytes are not the
/// wire form of any key.
pub open spec fn unwire(b: Seq<u8>) -> Option<KeyTriple> {
    if b.len() == 0 || b[0] != PROPRIETARY_TYPE {
        None
    } else {
        match read_compact_size(b, 1) {
            None => None,
            Some((prefix_len, p)) => if p + prefix_len > b.len() {
                None
            } else {
                match read_compact_size(b, p + prefix_len) {
                    None => None,
                    Some((subtype, q)) => if subtype > u64::MAX {
                        None
                    } else {
                        Some(
                            KeyTriple {
                                prefix: b.subrange(p, p + prefix_len),
                                subtype: subtype as u64,
                                key: b.subrange(q, b.len() as int),
                            },
                        )
                    },
                }
            },
        }
    }
}

/// Reading the wire form of a key gives the key back.
pub proof fn lemma_unwire_wire(k: KeyTriple)
    requires
        k.prefix.len() <= u64::MAX,
    ensures
        unwire(wire(k)) == Some(k),
{
    let b = wire(k);
    let head = seq![PROPRIETARY_TYPE];
    let c1 = compact_size(k.prefix.len());
    let c2 = compact_size(k.subtype as nat);
    lemma_read_written_compact_size(head, k.prefix.len() as u64, k.prefix + c2 + k.key);
    assert(b =~= head + c1 + (k.prefix + c2 + k.key));
    let p: int = 1 + c1.len() as int;
    lemma_read_written_compact_size(head + c1 + k.prefix, k.subtype, k.key);
    assert(b =~= (head + c1 + k.prefix) + c2 + k.key);
    let q: int = p + k.prefix.len() + c2.len();
    assert(b.subrange(p, p + k.prefix.len()) =~= k.prefix);
    assert(b.subrange(q, b.len() as int) =~= k.key);
}

/// Bytes that read as a key are the wire form of that key.
pub proof fn lemma_wire_unwire(b: Seq<u8>)
    requires
        unwire(b) is Some,
    ensures
        wire(unwire(b)->0) == b,
{
    let k = unwire(b)->0;
    let (prefix_len, p) = read_compact_size(b, 1)->0;
    lemma_written_as_read(b, 1);
    let (subtype, q) = read_compact_size(b, p + prefix_len)->0;
    lemma_written_as_read(b, p + prefix_len);
    assert(b =~= seq![PROPRIETARY_TYPE] + b.subrange(1, p) + b.subrange(p, p + prefix_len)
        + b.subrange(p + prefix_len, q) + b.subrange(q, b.len() as int));
}

/// Two keys with one wire form are the same key.
pub proof fn lemma_wire_injective(k1: KeyTriple, k2: KeyTriple)
    requires
        k1.prefix.len() <= u64::MAX,
        k2.prefix.len() <= u64::MAX,
        wire(k1) == wire(k2),
    ensures
        k1 == k2,
{
    lemma_unwire_wire(k1);
    lemma_unwire_wire(k2);
}

/// The wire form of a key without key data, cut short by one byte, is the
/// wire form of no key.
pub proof fn lemma_truncated_wire_fails(k: KeyTriple)
    requires
        k.prefix.len() <= u64::MAX,
        k.key.len() == 0,
    ensures
        wire(k).len() >= 3,
        unwire(wire(k).drop_last()) is None,
{
    let b = wire(k);
    let t = b.drop_last();
    let head = seq![PROPRIETARY_TYPE];
    let c1 = compact_size(k.prefix.len());
    let c2 = compact_size(k.subtype as nat);
    lemma_compact_size_shape(k.subtype);
    lemma_compact_size_shape(k.prefix.len() as u64);
    lemma_read_written_compact_size(head, k.prefix.len() as u64, k.prefix + c2.drop_last());
    assert(t =~= head + c1 + (k.prefix + c2.drop_last()));
    reveal(read_compact_size);
    let p: int = 1 + c1.len() as int;
    let at: int = p + k.prefix.len();
    assert(t.len() == at + c2.len() - 1);
    if c2.len() > 1 {
        assert(t[at] == c2[0]);
    }
}

/// The wire form of a key with key data, cut short by one byte, is the wire
/// form of the key with the last byte of its key data gone.
pub proof fn lemma_truncated_wire_with_key_data(k: KeyTriple)
    requires
        k.prefix.len() <= u64::MAX,
        k.key.len() > 0,
    ensures
        unwire(wire(k).drop_last()) == Some(
            KeyTriple { prefix: k.prefix, subtype: k.subtype, key: k.key.drop_last() },
        ),
{
    let shorter = KeyTriple { prefix: k.prefix, subtype: k.subtype, key: k.key.drop_last() };
    assert(wire(k).drop_last() =~= wire(shorter));
    lemma_unwire_wire(shorter);
}

/// A proprietary key: the prefix of its owner, a subtype, and key data.
#[derive(Clone, PartialEq, Eq, PartialOrd, Ord, Hash, Debug)]
pub struct ProprietaryKey {
    /// The prefix that names the owner of the key.
    pub prefix: Vec<u8>,
    /// The subtype, which the owner gives a meaning.
    pub subtype: u64,
    /// The key data.
    pub key: Vec<u8>,
}

impl View for ProprietaryKey {
    type V = KeyTriple;

    open spec fn view(&self) -> KeyTriple {
        KeyTriple { prefix: self.prefix@, subtype: self.subtype, key: self.key@ }
    }
}

impl ProprietaryKey {
    /// The key with the given parts.
    pub fn new(prefix: &[u8], subtype: u64, key: &[u8]) -> (k: ProprietaryKey)
        ensures
            k@ == (KeyTriple { prefix: prefix@, subtype, key: key@ }),
    {
        ProprietaryKey {
            prefix: bytes::to_vec(prefix),
            subtype,
            key: bytes::to_vec(key),
        }
    }

    /// The wire form of the key, which reads back as the key.
    pub fn encode(&self) -> (out: Vec<u8>)
        ensures
            out@ == wire(self@),
            unwire(out@) == Some(self@),
    {
        let mut out: Vec<u8> = Vec::new();
        out.push(PROPRIETARY_TYPE);
        write_compact_size(&mut out, self.prefix.len() as u64);
        bytes::extend(&mut out, self.prefix.as_slice());
        write_compact_size(&mut out, self.subtype);
        bytes::extend(&mut out, self.key.as_slice());
        proof {
            assert(out@ =~= wire(self@));
            lemma_unwire_wire(self@);
        }
        out
    }

    /// Reads a key from its wire form. Bytes that are not the wire form of a
    /// key (they end too early, the type byte is another, a length is not in
    /// its shortest form) are refused with `MalformedProprietaryKey`.
    pub fn decode(data: &[u8]) -> (r: Result<ProprietaryKey, Error>)
        ensures
            match r {
                Ok(k) => unwire(data@) == Some(k@) && wire(k@) == data@,
                Err(e) => unwire(data@) is None && e == Error::MalformedProprietaryKey,
            },
    {
        if data.len() == 0 || data[0] != PROPRIETARY_TYPE {
            return Err(Error::MalformedProprietaryKey);
        }
        let (prefix_len, p) = match read_compact_size_at(data, 1) {
            Some(found) => found,
            None => {
                return Err(Error::MalformedProprietaryKey);
            },
        };
        proof {
            lemma_written_as_read(data@, 1);
        }
        if prefix_len > (data.len() - p) as u64 {
            return Err(Error::MalformedProprietaryKey);
        }
        let at = p + prefix_len as usize;
        let (subtype, q) = match read_compact_size_at(data, at) {
            Some(found) => found,
            None => {
                return Err(Error::MalformedProprietaryKey);
            },
        };
        proof {
            lemma_written_as_read(data@, at as int);
            lemma_wire_unwire(data@);
        }
        Ok(
            ProprietaryKey {
                prefix: bytes::copy_range(data, p, at),
                subtype,
                key: bytes::copy_range(data, q, data.len()),
            },
        )
    }

    /// Whether the key has the given prefix and subtype.
    pub fn is_of(&self, prefix: &[u8], subtype: u64) -> (r: bool)
        ensures
            r == (self@.prefix == prefix@ && self@.subtype == subtype),
    {
        self.subtype == subtype && bytes::equal(self.prefix.as_slice(), prefix)
    }

    /// Whether two keys are the same in all three parts.
    pub fn same_as(&self, other: &ProprietaryKey) -> (r: bool)
        ensures
            r == (self@ == other@),
    {
        self.subtype == other.subtype && bytes::equal(self.prefix.as_slice(), other.prefix.as_slice())
            && bytes::equal(self.key.as_slice(), other.key.as_slice())
    }
}

/// One entry of a proprietary map: a key and the value under it.
#[derive(Clone, PartialEq, Eq, Debug)]
pub struct ProprietaryEntry {
    /// The key.
    pub key: ProprietaryKey,
    /// The value.
    pub value: Vec<u8>,
}

/// The first place at which a key stands in a row of keys; the length of
/// the row where it stands nowhere.
pub open spec fn first_index(keys: Seq<KeyTriple>, k: KeyTriple) -> int
    decreases keys.len(),
{
    if keys.len() == 0 {
        0
    } else if keys[0] == k {
        0
    } else {
        1 + first_index(keys.drop_first(), k)
    }
}

/// The first place of a key is a place where it stands, with none before it.
pub proof fn lemma_first_index(keys: Seq<KeyTriple>, k: KeyTriple)
    ensures
        0 <= first_index(keys, k) <= keys.len(),
        forall|j: int| 0 <= j < first_index(keys, k) ==> keys[j] != k,
        first_index(keys, k) < keys.len() ==> keys[first_index(keys, k)] == k,
        keys.contains(k) <==> first_index(keys, k) < keys.len(),
    decreases keys.len(),
{
    if keys.len() > 0 && keys[0] != k {
        let rest = keys.drop_first();
        lemma_first_index(rest, k);
        assert forall|j: int| 0 <= j < first_index(keys, k) implies keys[j] != k by {
            if j > 0 {
                assert(rest[j - 1] == keys[j]);
            }
        }
        if keys.contains(k) {
            let i = choose|i: int| 0 <= i < keys.len() && keys[i] == k;
            assert(rest[i - 1] == k);
        }
        if first_index(rest, k) < rest.len() {
            assert(keys[first_index(rest, k) + 1] == k);
        }
    } else if keys.len() > 0 {
        assert(keys[0] == k);
    }
}

/// A place where a key stands, with none before it, is its first place.
pub proof fn lemma_first_index_is(keys: Seq<KeyTriple>, k: KeyTriple, i: int)
    requires
        0 <= i < keys.len(),
        keys[i] == k,
        forall|j: int| 0 <= j < i ==> keys[j] != k,
    ensures
        first_index(keys, k) == i,
{
    lemma_first_index(keys, k);
}

/// A key added behind the others does not move the first place of any key
/// that was there, and where it is new its own first place is the last.
pub proof fn lemma_first_index_push(keys: Seq<KeyTriple>, added: KeyTriple, k: KeyTriple)
    ensures
        keys.contains(k) ==> first_index(keys.push(added), k) == first_index(keys, k),
        !keys.contains(k) && k == added ==> first_index(keys.push(added), k) == keys.len(),
        !keys.contains(k) && k != added ==> !keys.push(added).contains(k),
{
    let more = keys.push(added);
    lemma_first_index(keys, k);
    lemma_first_index(more, k);
    if keys.contains(k) {
        let i = first_index(keys, k);
        assert(more[i] == k);
        assert forall|j: int| 0 <= j < i implies more[j] != k by {
            assert(more[j] == keys[j]);
        }
        lemma_first_index_is(more, k, i);
    } else if k == added {
        assert(more[keys.len() as int] == k);
        assert forall|j: int| 0 <= j < keys.len() implies more[j] != k by {
            assert(more[j] == keys[j]);
            assert(keys.contains(keys[j]));
        }
        lemma_first_index_is(more, k, keys.len() as int);
    } else {
        if more.contains(k) {
            let i = choose|i: int| 0 <= i < more.len() && more[i] == k;
            assert(keys[i] == k);
        }
    }
}

/// The proprietary entries of one input, one output or the global map, in
/// the order in which they were put in.
#[derive(Clone, PartialEq, Eq, Debug)]
pub struct ProprietaryMap {
    entries: Vec<ProprietaryEntry>,
}

impl View for ProprietaryMap {
    type V = Map<KeyTriple, Seq<u8>>;

    closed spec fn view(&self) -> Map<KeyTriple, Seq<u8>> {
        Map::new(
            |k: KeyTriple| self.keys().contains(k),
            |k: KeyTriple| self.values()[first_index(self.keys(), k)],
        )
    }
}

impl ProprietaryMap {
    /// The keys, in the order in which they were put in.
    pub closed spec fn keys(&self) -> Seq<KeyTriple> {
        Seq::new(self.entries@.len(), |i: int| self.entries@[i].key@)
    }

    /// The values, in the order of their keys.
    pub closed spec fn values(&self) -> Seq<Seq<u8>> {
        Seq::new(self.entries@.len(), |i: int| self.entries@[i].value@)
    }

    /// Whether no key stands in the map twice. The empty map is so, and
    /// `insert` keeps a map so.
    pub open spec fn wf(&self) -> bool {
        self.keys().no_duplicates() && self.keys().len() == self.values().len()
    }

    /// The keys of the map are those of its entries, and in a map that holds
    /// no key twice each value stands under its key.
    pub proof fn lemma_entries(&self)
        ensures
            self.keys().len() == self.values().len(),
            forall|k: KeyTriple| self@.contains_key(k) <==> self.keys().contains(k),
            self.wf() ==> forall|i: int|
                0 <= i < self.keys().len() ==> self@[#[trigger] self.keys()[i]] == self.values()[i],
    {
        if self.wf() {
            assert forall|i: int| 0 <= i < self.keys().len() implies self@[#[trigger] self.keys()[i]]
                == self.values()[i] by {
                let k = self.keys()[i];
                lemma_first_index(self.keys(), k);
                assert(self.keys().contains(k));
            }
        }
    }

    /// The value under a key that the map holds is the value of the first
    /// entry with that key.
    pub proof fn lemma_value_at_first(&self, k: KeyTriple)
        requires
            self@.contains_key(k),
        ensures
            0 <= first_index(self.keys(), k) < self.keys().len(),
            self.keys()[first_index(self.keys(), k)] == k,
            self@[k] == self.values()[first_index(self.keys(), k)],
    {
        lemma_first_index(self.keys(), k);
    }

    /// The map without entries.
    pub fn new() -> (m: ProprietaryMap)
        ensures
            m@ == Map::<KeyTriple, Seq<u8>>::empty(),
            m.keys().len() == 0,
            m.wf(),
    {
        let m = ProprietaryMap { entries: Vec::new() };
        assert(m@ =~= Map::<KeyTriple, Seq<u8>>::empty());
        m
    }

    /// The number of entries.
    pub fn len(&self) -> (n: usize)
        ensures
            n == self.keys().len(),
            n == self.values().len(),
    {
        self.entries.len()
    }

    /// The entry at place `i`, in the order in which the entries were put in.
    pub fn entry_at(&self, i: usize) -> (e: &ProprietaryEntry)
        requires
            i < self.keys().len(),
        ensures
            e.key@ == self.keys()[i as int],
            e.value@ == self.values()[i as int],
            self@.contains_key(e.key@),
    {
        proof {
            assert(self.keys()[i as int] == self.entries@[i as int].key@);
            assert(self.keys().contains(self.keys()[i as int]));
        }
        &self.entries[i]
    }

    /// The first place of a key among the entries, where the map holds it.
    pub fn find(&self, prefix: &[u8], subtype: u64, key: &[u8]) -> (r: Option<usize>)
        ensures
            match r {
                Some(i) => i < self.keys().len() && i == first_index(
                    self.keys(),
                    KeyTriple { prefix: prefix@, subtype, key: key@ },
                ),
                None => !self.keys().contains(KeyTriple { prefix: prefix@, subtype, key: key@ }),
            },
    {
        let ghost k = KeyTriple { prefix: prefix@, subtype, key: key@ };
        let mut i: usize = 0;
        while i < self.entries.len()
            invariant
                i <= self.entries@.len(),
                k == (KeyTriple { prefix: prefix@, subtype, key: key@ }),
                forall|j: int| 0 <= j < i ==> self.keys()[j] != k,
            decreases self.entries@.len() - i,
        {
            let e = &self.entries[i];
            if e.key.is_of(prefix, subtype) && bytes::equal(e.key.key.as_slice(), key) {
                proof {
                    assert(self.keys()[i as int] == k);
                    lemma_first_index_is(self.keys(), k, i as int);
                }
                return Some(i);
            }
            i += 1;
        }
        None
    }

    /// The places of the entries with a prefix and a subtype, whatever their
    /// key data, in the order in which they were put in. That there is none
    /// is no error.
    pub fn select(&self, prefix: &[u8], subtype: u64) -> (r: Vec<usize>)
        ensures
            forall|a: int, b: int| 0 <= a < b < r@.len() ==> r@[a] < r@[b],
            forall|a: int| 0 <= a < r@.len() ==> (#[trigger] r@[a]) < self.keys().len(),
            forall|i: int|
                0 <= i < self.keys().len() ==> (r@.contains(i as usize) <==> (
                #[trigger] self.keys()[i]).prefix == prefix@ && self.keys()[i].subtype == subtype),
    {
        let mut found: Vec<usize> = Vec::new();
        let mut i: usize = 0;
        while i < self.entries.len()
            invariant
                i <= self.entries@.len(),
                forall|a: int, b: int| 0 <= a < b < found@.len() ==> found@[a] < found@[b],
                forall|a: int| 0 <= a < found@.len() ==> (#[trigger] found@[a]) < i,
                forall|j: int|
                    0 <= j < i ==> (found@.contains(j as usize) <==> (
                    #[trigger] self.keys()[j]).prefix == prefix@ && self.keys()[j].subtype
                        == subtype),
            decreases self.entries@.len() - i,
        {
            let ghost before = found@;
            if self.entries[i].key.is_of(prefix, subtype) {
                found.push(i);
                proof {
                    assert(found@[before.len() as int] == i);
                    assert forall|j: int| 0 <= j < i + 1 implies (found@.contains(j as usize) <==> (
                    #[trigger] self.keys()[j]).prefix == prefix@ && self.keys()[j].subtype
                        == subtype) by {
                        if j < i {
                            if before.contains(j as usize) {
                                let a = choose|a: int| 0 <= a < before.len() && before[a] == j;
                                assert(found@[a] == j);
                            }
                            if found@.contains(j as usize) {
                                let a = choose|a: int| 0 <= a < found@.len() && found@[a] == j;
                                assert(before[a] == j);
                            }
                        }
                    }
                }
            } else {
                proof {
                    assert forall|j: int| 0 <= j < i + 1 implies (found@.contains(j as usize) <==> (
                    #[trigger] self.keys()[j]).prefix == prefix@ && self.keys()[j].subtype
                        == subtype) by {
                        if j == i && found@.contains(j as usize) {
                            let a = choose|a: int| 0 <= a < found@.len() && found@[a] == j;
                            assert(found@[a] < i);
                        }
                    }
                }
            }
            i += 1;
        }
        found
    }

    /// The value under a key, where the map holds the key. That a key is not
    /// there is no error.
    pub fn get(&self, prefix: &[u8], subtype: u64, key: &[u8]) -> (r: Option<&Vec<u8>>)
        ensures
            match r {
                Some(v) => {
                    let k = KeyTriple { prefix: prefix@, subtype, key: key@ };
                    self@.contains_key(k) && self@[k] == v@
                },
                None => !self@.contains_key(KeyTriple { prefix: prefix@, subtype, key: key@ }),
            },
    {
        match self.find(prefix, subtype, key) {
            Some(i) => {
                proof {
                    lemma_first_index(
                        self.keys(),
                        KeyTriple { prefix: prefix@, subtype, key: key@ },
                    );
                }
                Some(&self.entries[i].value)
            },
            None => None,
        }
    }

    /// Whether the map holds a key.
    pub fn contains(&self, prefix: &[u8], subtype: u64, key: &[u8]) -> (r: bool)
        ensures
            r == self@.contains_key(KeyTriple { prefix: prefix@, subtype, key: key@ }),
    {
        proof {
            lemma_first_index(self.keys(), KeyTriple { prefix: prefix@, subtype, key: key@ });
        }
        self.find(prefix, subtype, key).is_some()
    }

    /// Puts a value under a key that the map does not hold yet. A key that
    /// is there already is not overwritten: to put it in again is an error of
    /// the caller.
    pub fn insert(&mut self, key: ProprietaryKey, value: Vec<u8>)
        requires
            !old(self)@.contains_key(key@),
        ensures
            final(self)@ == old(self)@.insert(key@, value@),
            final(self).keys() == old(self).keys().push(key@),
            final(self).values() == old(self).values().push(value@),
            old(self).wf() ==> final(self).wf(),
    {
        let ghost k = key@;
        let ghost v = value@;
        let ghost old_keys = self.keys();
        let ghost old_values = self.values();
        let ghost old_map = self@;
        self.entries.push(ProprietaryEntry { key, value });
        proof {
            assert(self.keys() =~= old_keys.push(k));
            assert(self.values() =~= old_values.push(v));
            assert(!old_keys.contains(k));
            if old_keys.no_duplicates() {
                assert forall|x: int, y: int|
                    0 <= x < self.keys().len() && 0 <= y < self.keys().len() && x
                        != y implies self.keys()[x] != self.keys()[y] by {
                    if x < old_keys.len() {
                        assert(old_keys.contains(old_keys[x]));
                    }
                    if y < old_keys.len() {
                        assert(old_keys.contains(old_keys[y]));
                    }
                }
            }
            assert forall|q: KeyTriple| #[trigger]
                self@.contains_key(q) == old_map.insert(k, v).contains_key(q) by {
                lemma_first_index_push(old_keys, k, q);
                if q == k {
                    assert(self.keys()[old_keys.len() as int] == k);
                }
                if old_keys.contains(q) {
                    let i = choose|i: int| 0 <= i < old_keys.len() && old_keys[i] == q;
                    assert(self.keys()[i] == q);
                }
                assert(self@.contains_key(q) == self.keys().contains(q));
                assert(old_map.contains_key(q) == old_keys.contains(q));
            }
            assert forall|q: KeyTriple| self@.contains_key(q) implies #[trigger] self@[q]
                == old_map.insert(k, v)[q] by {
                lemma_first_index_push(old_keys, k, q);
                lemma_first_index(old_keys, q);
            }
            assert(self@ =~= old_map.insert(k, v));
        }
    }
}

/// The prefix of the keys of multi-protocol commitments: `LNPBP4`.
pub const PSBT_LNPBP4_PREFIX: [u8; 6] = [0x4c, 0x4e, 0x50, 0x42, 0x50, 0x34];

/// The prefix of the keys of taproot anchors: `TAPRET`.
pub const PSBT_TAPRET_PREFIX: [u8; 6] = [0x54, 0x41, 0x50, 0x52, 0x45, 0x54];

/// The prefix of the keys of pay-to-contract tweaks: `P2C`.
pub const PSBT_P2C_PREFIX: [u8; 3] = [0x50, 0x32, 0x43];

/// Global map: what is known of the protocols that take part in the
/// multi-protocol commitment.
pub const PSBT_GLOBAL_LNPBP4_PROTOCOL_INFO: u64 = 0x00;

/// Output: the message of one protocol; the key data is the protocol
/// identifier.
pub const PSBT_OUT_LNPBP4_MESSAGE: u64 = 0x00;

/// Output: the entropy that the padding of the commitment tree is made from.
pub const PSBT_OUT_LNPBP4_ENTROPY: u64 = 0x01;

/// Output: the minimum depth of the commitment tree.
pub const PSBT_OUT_LNPBP4_MIN_TREE_DEPTH: u64 = 0x04;

/// Input: the tweak that a taproot anchor put on the key that is spent.
pub const PSBT_IN_TAPRET_TWEAK: u64 = 0x00;

/// Output: the mark that the output may host a taproot anchor.
pub const PSBT_OUT_TAPRET_HOST: u64 = 0x00;

/// Output: the commitment that the output holds.
pub const PSBT_OUT_TAPRET_COMMITMENT: u64 = 0x01;

/// Output: the proof of the commitment that the output holds.
pub const PSBT_OUT_TAPRET_PROOF: u64 = 0x02;

/// Input: the tweak that a pay-to-contract commitment put on a key; the key
/// data is the key.
pub const PSBT_IN_P2C_TWEAK: u64 = 0x00;

} // verus!
