//! The ledger's binary key-value store, as seen by this crate: one
//! binary-encoded value per binary key.
//!
//! Writes and deletions are appended to an internal log and the latest entry
//! for a key wins, mirroring a write-log overlay; the store's abstract value
//! is the [`Map`] obtained by replaying the log in order.

use vstd::prelude::*;

use crate::addr::bytes_eq;

verus! {

/// One logged mutation: a written value, or a tombstone for a deletion.
pub struct KvEntry {
    /// The key the mutation applies to.
    pub key: Vec<u8>,
    /// The written value, or `None` for a deletion.
    pub value: Option<Vec<u8>>,
}

/// A binary key-value store backed by a mutation log.
pub struct Kv {
    /// The mutation log, oldest first.
    pub entries: Vec<KvEntry>,
}

/// The map obtained by replaying a mutation log in order.
pub open spec fn kv_map(s: Seq<KvEntry>) -> Map<Seq<u8>, Seq<u8>>
    decreases s.len(),
{
    if s.len() == 0 {
        Map::empty()
    } else {
        let e = s.last();
        match e.value {
            Some(v) => kv_map(s.drop_last()).insert(e.key@, v@),
            None => kv_map(s.drop_last()).remove(e.key@),
        }
    }
}

/// The latest logged value for a key, if any.
pub open spec fn kv_lookup(s: Seq<KvEntry>, k: Seq<u8>) -> Option<Seq<u8>>
    decreases s.len(),
{
    if s.len() == 0 {
        None
    } else if s.last().key@ == k {
        match s.last().value {
            Some(v) => Some(v@),
            None => None,
        }
    } else {
        kv_lookup(s.drop_last(), k)
    }
}

/// Replaying the log and following the latest entry for a key agree.
pub proof fn lemma_kv_lookup_is_map(s: Seq<KvEntry>, k: Seq<u8>)
    ensures
        kv_lookup(s, k) == (if kv_map(s).contains_key(k) {
            Some(kv_map(s)[k])
        } else {
            None::<Seq<u8>>
        }),
    decreases s.len(),
{
    if s.len() > 0 {
        lemma_kv_lookup_is_map(s.drop_last(), k);
    }
}

/// Copies a byte vector.
pub fn clone_bytes(v: &Vec<u8>) -> (r: Vec<u8>)
    ensures
        r@ == v@,
{
    let mut r: Vec<u8> = Vec::new();
    let mut i: usize = 0;
    while i < v.len()
        invariant
            0 <= i <= v@.len(),
            r@ == v@.take(i as int),
        decreases v@.len() - i,
    {
        r.push(v[i]);
        proof {
            assert(v@.take(i + 1 as int) =~= v@.take(i as int).push(v@[i as int]));
        }
        i += 1;
    }
    proof {
        assert(v@.take(v@.len() as int) =~= v@);
    }
    r
}

impl View for Kv {
    type V = Map<Seq<u8>, Seq<u8>>;

    open spec fn view(&self) -> Map<Seq<u8>, Seq<u8>> {
        kv_map(self.entries@)
    }
}

impl Kv {
    /// An empty store.
    pub fn empty() -> (r: Kv)
        ensures
            r@ == Map::<Seq<u8>, Seq<u8>>::empty(),
    {
        Kv { entries: Vec::new() }
    }

    /// Writes a binary value under a key, replacing any earlier value.
    pub fn write(&mut self, key: Vec<u8>, value: Vec<u8>)
        ensures
            final(self)@ == old(self)@.insert(key@, value@),
    {
        let ghost s0 = self.entries@;
        self.entries.push(KvEntry { key, value: Some(value) });
        proof {
            assert(self.entries@.drop_last() =~= s0);
        }
    }

    /// Deletes a key, if present.
    pub fn delete(&mut self, key: Vec<u8>)
        ensures
            final(self)@ == old(self)@.remove(key@),
    {
        let ghost s0 = self.entries@;
        self.entries.push(KvEntry { key, value: None });
        proof {
            assert(self.entries@.drop_last() =~= s0);
        }
    }

    /// Whether any value is stored under the key.
    pub fn has_key(&self, key: &Vec<u8>) -> (r: bool)
        ensures
            r == self@.contains_key(key@),
    {
        proof {
            lemma_kv_lookup_is_map(self.entries@, key@);
        }
        self.lookup_latest(key).is_some()
    }

    /// Reads the binary value stored under the key, if any.
    pub fn read(&self, key: &Vec<u8>) -> (r: Option<Vec<u8>>)
        ensures
            self@.contains_key(key@) ==> (r matches Some(v) && v@ == self@[key@]),
            !self@.contains_key(key@) ==> r is None,
    {
        proof {
            lemma_kv_lookup_is_map(self.entries@, key@);
        }
        match self.lookup_latest(key) {
            Some(v) => Some(clone_bytes(v)),
            None => None,
        }
    }

    /// Walks the log backwards to the latest entry for the key.
    fn lookup_latest(&self, key: &Vec<u8>) -> (r: Option<&Vec<u8>>)
        ensures
            (match r {
                Some(v) => kv_lookup(self.entries@, key@) == Some(v@),
                None => kv_lookup(self.entries@, key@) is None,
            }),
    {
        let ghost s = self.entries@;
        let mut i: usize = self.entries.len();
        proof {
            assert(s.take(s.len() as int) =~= s);
        }
        while i > 0
            invariant
                0 <= i <= s.len(),
                s == self.entries@,
                kv_lookup(s.take(i as int), key@) == kv_lookup(s, key@),
            decreases i,
        {
            i -= 1;
            proof {
                assert(s.take(i + 1).drop_last() =~= s.take(i as int));
                assert(s.take(i + 1).last() == s[i as int]);
            }
            let e = &self.entries[i];
            if bytes_eq(&e.key, key) {
                match &e.value {
                    Some(v) => {
                        return Some(v);
                    },
                    None => {
                        return None;
                    },
                }
            }
        }
        None
    }
}

} // verus!
