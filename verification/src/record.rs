//! Normalized vendor records: the parsed form of one registry entry.
use vstd::prelude::*;

use crate::prefix::is_valid_prefix;
use crate::text::subrange_vec;

verus! {

/// Mathematical model of a vendor record.
pub ghost struct RecordModel {
    pub prefix: Seq<u8>,
    pub company_name: Seq<u8>,
    pub address_lines: Seq<Seq<u8>>,
    pub location: Seq<u8>,
    pub country: Seq<u8>,
}

/// Second-to-last address line, or empty if fewer than two lines exist.
pub open spec fn derived_location(addr: Seq<Seq<u8>>) -> Seq<u8> {
    if addr.len() < 2 {
        Seq::empty()
    } else {
        addr[addr.len() - 2]
    }
}

/// Last address line, or empty if no line exists.
pub open spec fn derived_country(addr: Seq<Seq<u8>>) -> Seq<u8> {
    if addr.len() == 0 {
        Seq::empty()
    } else {
        addr.last()
    }
}

impl RecordModel {
    /// A well-formed record: the prefix is six uppercase hexadecimal
    /// characters and the derived fields follow from the address lines.
    pub open spec fn wf(&self) -> bool {
        &&& is_valid_prefix(self.prefix)
        &&& self.location == derived_location(self.address_lines)
        &&& self.country == derived_country(self.address_lines)
    }
}

/// One normalized registry record.
pub struct VendorRecord {
    /// Six uppercase hexadecimal characters: the first 24 bits of an
    /// interface identifier.
    pub prefix: Vec<u8>,
    /// Free text; empty if the header line lacked a name token.
    pub company_name: Vec<u8>,
    /// The left-trimmed non-empty lines between the header line and the
    /// end of the record.
    pub address_lines: Vec<Vec<u8>>,
    /// Derived: second-to-last address line (city/region).
    pub location: Vec<u8>,
    /// Derived: last address line.
    pub country: Vec<u8>,
}

impl View for VendorRecord {
    type V = RecordModel;

    open spec fn view(&self) -> RecordModel {
        RecordModel {
            prefix: self.prefix@,
            company_name: self.company_name@,
            address_lines: self.address_lines.deep_view(),
            location: self.location@,
            country: self.country@,
        }
    }
}

/// Failure of a single record; recovered locally, never propagated.
#[derive(Debug, PartialEq, Eq, Structural, Clone, Copy)]
pub enum RecordError {
    /// The header line could not yield a valid six-character prefix.
    MalformedRecord,
}

/// Copy of a byte vector.
pub fn copy_bytes(v: &Vec<u8>) -> (r: Vec<u8>)
    ensures
        r@ == v@,
{
    let r = subrange_vec(v, 0, v.len());
    proof {
        assert(r@ =~= v@);
    }
    r
}

impl VendorRecord {
    /// Builds a record from its parsed parts, computing the derived
    /// `location` and `country` fields once; rejects a prefix that is not
    /// exactly six uppercase hexadecimal characters.
    pub fn new(prefix: Vec<u8>, company_name: Vec<u8>, address_lines: Vec<Vec<u8>>) -> (r: Result<
        VendorRecord,
        RecordError,
    >)
        ensures
            match r {
                Ok(rec) => {
                    &&& is_valid_prefix(prefix@)
                    &&& rec@.prefix == prefix@
                    &&& rec@.company_name == company_name@
                    &&& rec@.address_lines == address_lines.deep_view()
                    &&& rec@.location == derived_location(address_lines.deep_view())
                    &&& rec@.country == derived_country(address_lines.deep_view())
                    &&& rec@.wf()
                },
                Err(e) => !is_valid_prefix(prefix@) && e == RecordError::MalformedRecord,
            },
    {
        if !crate::prefix::valid_prefix(&prefix) {
            return Err(RecordError::MalformedRecord);
        }
        let n = address_lines.len();
        let location: Vec<u8> = if n >= 2 {
            copy_bytes(&address_lines[n - 2])
        } else {
            Vec::new()
        };
        let country: Vec<u8> = if n >= 1 {
            copy_bytes(&address_lines[n - 1])
        } else {
            Vec::new()
        };
        proof {
            assert(address_lines.deep_view().len() == n);
            if n >= 2 {
                assert(address_lines.deep_view()[n - 2] == address_lines@[n - 2]@);
            }
            if n >= 1 {
                assert(address_lines.deep_view()[n - 1] == address_lines@[n - 1]@);
            }
            if n == 0 {
                assert(location@ =~= derived_location(address_lines.deep_view()));
                assert(country@ =~= derived_country(address_lines.deep_view()));
            }
        }
        Ok(VendorRecord { prefix, company_name, address_lines, location, country })
    }
}

} // verus!
