//! The immutable compiled lookup table and the lookup service.
use vstd::prelude::*;

use std::collections::HashMap;

use crate::prefix::{compute_prefix_key, is_valid_prefix, prefix_key, valid_prefix, LOWER_A, LOWER_Z};
use crate::record::{copy_bytes, RecordModel};
use crate::store::{record_key, RecordStore};
use crate::text::COLON;

verus! {

/// Mathematical model of the vendor data stored for one prefix.
pub ghost struct InfoModel {
    pub company_name: Seq<u8>,
    pub location: Seq<u8>,
    pub country: Seq<u8>,
}

/// The fixed-shape vendor data a lookup returns.
pub struct VendorInfo {
    pub company_name: Vec<u8>,
    pub location: Vec<u8>,
    pub country: Vec<u8>,
}

impl View for VendorInfo {
    type V = InfoModel;

    open spec fn view(&self) -> InfoModel {
        InfoModel {
            company_name: self.company_name@,
            location: self.location@,
            country: self.country@,
        }
    }
}

/// The vendor data a record contributes to the compiled table.
pub open spec fn info_of(r: RecordModel) -> InfoModel {
    InfoModel { company_name: r.company_name, location: r.location, country: r.country }
}

/// A lookup on a caller-supplied identifier that is too short to carry a
/// prefix is rejected with this typed failure, never by a crash.
#[derive(Debug, PartialEq, Eq, Structural, Clone, Copy)]
pub enum LookupError {
    /// The identifier is shorter than the minimum required length.
    InvalidFormat,
}

/// Minimum identifier length: six prefix characters and two separators.
pub const MIN_IDENTIFIER_LEN: usize = 8;

/// An immutable exact-match table from 24-bit prefix key to vendor data.
/// No update or delete is supported after compilation.
pub struct CompiledTable {
    /// The compiled mapping; never mutated after `compile` returns it.
    pub map: HashMap<u32, VendorInfo>,
}

impl View for CompiledTable {
    type V = Map<u32, InfoModel>;

    open spec fn view(&self) -> Map<u32, InfoModel> {
        self.map@.map_values(|v: VendorInfo| v@)
    }
}

/// Compiles a record set into the immutable lookup table: exactly the
/// entries of the record set, each reduced to its vendor data. The result
/// is a function of the record set alone, so compilation is deterministic.
pub fn compile(records: &RecordStore) -> (t: CompiledTable)
    requires
        records.wf(),
    ensures
        t@ == records@.map_values(|r: RecordModel| info_of(r)),
{
    let mut map: HashMap<u32, VendorInfo> = HashMap::new();
    let mut i: usize = 0;
    while i < records.keys.len()
        invariant
            0 <= i <= records.keys@.len(),
            records.wf(),
            forall|k: u32| #![auto]
                map@.contains_key(k) <==> records.keys@.take(i as int).contains(k),
            forall|k: u32|
                #[trigger] map@.contains_key(k) ==> records@.contains_key(k) && map@[k]@ == info_of(
                    records@[k],
                ),
        decreases records.keys@.len() - i,
    {
        let k = records.keys[i];
        proof {
            assert(records.keys@.contains(k));
        }
        let info = match records.map.get(&k) {
            Some(rec) => VendorInfo {
                company_name: copy_bytes(&rec.company_name),
                location: copy_bytes(&rec.location),
                country: copy_bytes(&rec.country),
            },
            None => vstd::pervasive::unreached(),
        };
        let ghost old_map_view = map@;
        map.insert(k, info);
        proof {
            let ks0 = records.keys@.take(i as int);
            let ks1 = records.keys@.take(i + 1);
            assert(ks1 =~= ks0.push(k));
            assert forall|k2: u32| #![auto] map@.contains_key(k2) <==> ks1.contains(k2) by {
                if map@.contains_key(k2) {
                    if k2 == k {
                        assert(ks1.last() == k);
                    } else {
                        assert(old_map_view.contains_key(k2));
                        let m = choose|m: int| 0 <= m < ks0.len() && ks0[m] == k2;
                        assert(ks1[m] == k2);
                    }
                }
                if ks1.contains(k2) {
                    let m = choose|m: int| 0 <= m < ks1.len() && ks1[m] == k2;
                    if m < i {
                        assert(ks0[m] == k2);
                        assert(ks0.contains(k2));
                    }
                }
            }
        }
        i += 1;
    }
    let t = CompiledTable { map };
    proof {
        assert forall|k: u32| #[trigger]
            records@.contains_key(k) implies t.map@.contains_key(k) by {
            assert(records.keys@.contains(k));
            assert(records.keys@.take(records.keys@.len() as int) =~= records.keys@);
        }
        assert(records.keys@.take(records.keys@.len() as int) =~= records.keys@);
        assert(t@ =~= records@.map_values(|r: RecordModel| info_of(r)));
    }
    t
}

/// The byte with an ASCII lowercase letter raised to uppercase.
pub open spec fn upper_byte(b: u8) -> u8 {
    if LOWER_A <= b && b <= LOWER_Z {
        (b - 32) as u8
    } else {
        b
    }
}

/// The first eight bytes of the identifier, uppercased.
pub open spec fn upper8(id: Seq<u8>) -> Seq<u8>
    recommends
        id.len() >= 8,
{
    Seq::new(8, |i: int| upper_byte(id[i]))
}

/// The first `i` bytes of `s` with every colon removed.
pub open spec fn strip_colons_prefix(s: Seq<u8>, i: int) -> Seq<u8>
    decreases i,
{
    if i <= 0 {
        Seq::empty()
    } else {
        strip_colons_prefix(s, i - 1) + (if s[i - 1] == COLON {
            Seq::<u8>::empty()
        } else {
            seq![s[i - 1]]
        })
    }
}

/// Normalization of a user-supplied identifier: uppercase the first eight
/// bytes, then remove every colon.
pub open spec fn normalized_key(id: Seq<u8>) -> Seq<u8>
    recommends
        id.len() >= 8,
{
    strip_colons_prefix(upper8(id), 8)
}

/// What a lookup answers: a typed failure for a too-short identifier;
/// otherwise the vendor data stored under the normalized key, or nothing
/// when the normalized key is not a registered prefix.
pub open spec fn table_answer(t: Map<u32, InfoModel>, id: Seq<u8>) -> Result<
    Option<InfoModel>,
    LookupError,
> {
    if id.len() < MIN_IDENTIFIER_LEN {
        Err(LookupError::InvalidFormat)
    } else {
        let key = normalized_key(id);
        if is_valid_prefix(key) && t.contains_key(prefix_key(key) as u32) {
            Ok(Some(t[prefix_key(key) as u32]))
        } else {
            Ok(None)
        }
    }
}

impl CompiledTable {
    /// Looks an identifier up: rejects one shorter than eight bytes with
    /// `InvalidFormat`, otherwise normalizes it and answers the exact-match
    /// query `table_answer` describes. The table is never changed by a
    /// lookup, so repeated calls answer alike.
    pub fn lookup<'a>(&'a self, identifier: &Vec<u8>) -> (r: Result<
        Option<&'a VendorInfo>,
        LookupError,
    >)
        ensures
            match r {
                Err(e) => table_answer(self@, identifier@) == Err::<
                    Option<InfoModel>,
                    LookupError,
                >(e),
                Ok(None) => table_answer(self@, identifier@) == Ok::<
                    Option<InfoModel>,
                    LookupError,
                >(None),
                Ok(Some(info)) => table_answer(self@, identifier@) == Ok::<
                    Option<InfoModel>,
                    LookupError,
                >(Some(info@)),
            },
    {
        if identifier.len() < MIN_IDENTIFIER_LEN {
            return Err(LookupError::InvalidFormat);
        }
        let mut key: Vec<u8> = Vec::new();
        let mut m: usize = 0;
        while m < MIN_IDENTIFIER_LEN
            invariant
                0 <= m <= 8,
                identifier@.len() >= 8,
                key@ == strip_colons_prefix(upper8(identifier@), m as int),
            decreases 8 - m,
    {
            let b = identifier[m];
            let u: u8 = if LOWER_A <= b && b <= LOWER_Z {
                b - 32
            } else {
                b
            };
            assert(u == upper8(identifier@)[m as int]);
            if u != COLON {
                key.push(u);
            }
            m += 1;
        }
        if valid_prefix(&key) {
            let k = compute_prefix_key(&key);
            match self.map.get(&k) {
                Some(info) => {
                    proof {
                        assert(self@.contains_key(k));
                        assert(self@[k] == info@);
                    }
                    Ok(Some(info))
                },
                None => {
                    proof {
                        assert(!self@.contains_key(k));
                    }
                    Ok(None)
                },
            }
        } else {
            Ok(None)
        }
    }
}

/// A successful lookup is an exact match: the vendor data answered for a
/// well-formed record set is that of a record whose prefix is literally
/// the normalized identifier key, character for character.
pub proof fn lemma_lookup_exact_match(
    t: Map<u32, InfoModel>,
    records: Map<u32, RecordModel>,
    id: Seq<u8>,
    info: InfoModel,
)
    requires
        t == records.map_values(|r: RecordModel| info_of(r)),
        forall|k: u32| #[trigger]
            records.contains_key(k) ==> records[k].wf() && record_key(records[k]) == k,
        table_answer(t, id) == Ok::<Option<InfoModel>, LookupError>(Some(info)),
    ensures
        is_valid_prefix(normalized_key(id)),
        exists|k: u32|
            #![auto]
            records.contains_key(k) && records[k].prefix == normalized_key(id) && info_of(
                records[k],
            ) == info,
{
    let key = normalized_key(id);
    let kk = crate::prefix::prefix_key(key) as u32;
    assert(t.contains_key(kk) && t[kk] == info);
    assert(records.contains_key(kk));
    let rec = records[kk];
    crate::prefix::lemma_prefix_key_bound(rec.prefix);
    crate::prefix::lemma_prefix_key_bound(key);
    assert(crate::prefix::prefix_key(rec.prefix) == crate::prefix::prefix_key(key));
    crate::prefix::lemma_prefix_key_injective(rec.prefix, key);
    assert(records.contains_key(kk) && records[kk].prefix == key && info_of(records[kk]) == info);
}

/// Compiling the same record set twice yields tables that answer every
/// query alike: the compiled view is a function of the record set alone.
pub proof fn lemma_compile_deterministic(
    t1: Map<u32, InfoModel>,
    t2: Map<u32, InfoModel>,
    records: Map<u32, RecordModel>,
)
    requires
        t1 == records.map_values(|r: RecordModel| info_of(r)),
        t2 == records.map_values(|r: RecordModel| info_of(r)),
    ensures
        forall|id: Seq<u8>| table_answer(t1, id) == table_answer(t2, id),
{
}

/// A lookup is idempotent: while the table is unchanged, two answers to
/// the same identifier that both meet the lookup contract are equal.
pub proof fn lemma_lookup_idempotent(
    t: Map<u32, InfoModel>,
    id: Seq<u8>,
    r1: Result<Option<InfoModel>, LookupError>,
    r2: Result<Option<InfoModel>, LookupError>,
)
    requires
        r1 == table_answer(t, id),
        r2 == table_answer(t, id),
    ensures
        r1 == r2,
{
}

} // verus!
