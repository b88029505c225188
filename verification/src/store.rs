//! The transient record set produced by the parser: a mapping from the
//! 24-bit prefix key to the record registered last under that prefix.
use vstd::prelude::*;

use std::collections::HashMap;

use crate::prefix::{compute_prefix_key, prefix_key};
use crate::record::{RecordModel, VendorRecord};

verus! {

/// The 24-bit key of a record, as stored in the mapping.
pub open spec fn record_key(r: RecordModel) -> u32 {
    prefix_key(r.prefix) as u32
}

/// A mapping from prefix key to vendor record; a later insertion under an
/// existing key overwrites the earlier record.
pub struct RecordStore {
    /// The keys present, in first-insertion order, without duplicates.
    pub keys: Vec<u32>,
    /// The records, keyed by their 24-bit prefix key.
    pub map: HashMap<u32, VendorRecord>,
}

impl View for RecordStore {
    type V = Map<u32, RecordModel>;

    open spec fn view(&self) -> Map<u32, RecordModel> {
        self.map@.map_values(|r: VendorRecord| r@)
    }
}

impl RecordStore {
    /// The key list and the mapping agree, and every stored record is
    /// well formed and stored under the key its prefix denotes.
    pub open spec fn wf(&self) -> bool {
        &&& self.keys@.no_duplicates()
        &&& forall|k: u32| #![auto] self.map@.contains_key(k) <==> self.keys@.contains(k)
        &&& forall|k: u32|
            self.map@.contains_key(k) ==> (#[trigger] self.map@[k])@.wf() && record_key(
                self.map@[k]@,
            ) == k
    }

    /// An empty record set: a valid result for an empty or unparseable
    /// document.
    pub fn new() -> (r: RecordStore)
        ensures
            r.wf(),
            r@ == Map::<u32, RecordModel>::empty(),
    {
        let r = RecordStore { keys: Vec::new(), map: HashMap::new() };
        proof {
            assert(r@ =~= Map::<u32, RecordModel>::empty());
        }
        r
    }

    /// Number of distinct prefixes stored.
    pub fn len(&self) -> (n: usize)
        requires
            self.wf(),
        ensures
            n == self@.len(),
    {
        proof {
            assert(self@.dom() =~= self.map@.dom());
        }
        self.map.len()
    }

    /// Inserts a record under the key its prefix denotes; a record already
    /// stored under that key is overwritten, the later write winning.
    pub fn insert(&mut self, rec: VendorRecord)
        requires
            old(self).wf(),
            rec@.wf(),
        ensures
            final(self).wf(),
            final(self)@ == old(self)@.insert(record_key(rec@), rec@),
    {
        let k = compute_prefix_key(&rec.prefix);
        let ghost old_view = self@;
        let prev = self.map.insert(k, rec);
        proof {
            assert(self@ =~= old_view.insert(k, rec@));
        }
        if prev.is_none() {
            proof {
                assert(!old(self).keys@.contains(k));
                assert forall|i: int| 0 <= i < self.keys@.len() implies #[trigger] self.keys@[i]
                    != k by {
                    if self.keys@[i] == k {
                        assert(self.keys@.contains(k));
                    }
                }
            }
            self.keys.push(k);
            proof {
                let ks = self.keys@;
                let old_ks = old(self).keys@;
                assert forall|k2: u32| #[trigger] ks.contains(k2) implies old_ks.contains(k2) || k2
                    == k by {
                    let i = choose|i: int| 0 <= i < ks.len() && ks[i] == k2;
                    if i < ks.len() - 1 {
                        assert(old_ks[i] == k2);
                        assert(old_ks.contains(k2));
                    }
                }
                assert forall|k2: u32| old_ks.contains(k2) || k2 == k implies #[trigger] ks.contains(
                    k2,
                ) by {
                    if old_ks.contains(k2) {
                        let i = choose|i: int| 0 <= i < old_ks.len() && old_ks[i] == k2;
                        assert(ks[i] == k2);
                    } else {
                        assert(ks.last() == k2);
                    }
                }
                assert(ks.no_duplicates()) by {
                    assert(forall|i: int, j: int| 0 <= i < j < ks.len() ==> ks[i] != ks[j]);
                }
            }
        }
    }

    /// The record stored under a prefix key, if any.
    pub fn get(&self, k: u32) -> (r: Option<&VendorRecord>)
        requires
            self.wf(),
        ensures
            match r {
                Some(rec) => self@.contains_key(k) && self@[k] == rec@,
                None => !self@.contains_key(k),
            },
    {
        self.map.get(&k)
    }
}

} // verus!
