//! The record parser: turns the raw registry text into a normalized
//! record set, scanning line by line with a two-state mode (seeking a
//! header line, accumulating address lines).
use vstd::prelude::*;

use crate::prefix::{is_valid_prefix, prefix_key};
use crate::record::{derived_country, derived_location, RecordModel, VendorRecord};
use crate::store::{record_key, RecordStore};
use crate::text::{
    blank_line, contains_pattern, contains_seq, is_blank, lines_seq, match_at, rfind_from,
    rfind_pattern, rfind_seq, split_lines, subrange_vec, trim_start, trim_start_seq,
};

verus! {

/// Number of preamble lines (document legend) skipped before scanning.
pub const PREAMBLE_LINES: usize = 4;

/// The marker carried by a header line: the literal text `(base 16)`.
pub open spec fn base16_marker() -> Seq<u8> {
    seq![40u8, 98u8, 97u8, 115u8, 101u8, 32u8, 49u8, 54u8, 41u8]
}

/// The marker of a legend line: the literal text `(hex)`.
pub open spec fn hex_marker() -> Seq<u8> {
    seq![40u8, 104u8, 101u8, 120u8, 41u8]
}

/// Builds the header marker bytes.
fn base16_marker_vec() -> (r: Vec<u8>)
    ensures
        r@ == base16_marker(),
{
    let mut v: Vec<u8> = Vec::new();
    v.push(40);
    v.push(98);
    v.push(97);
    v.push(115);
    v.push(101);
    v.push(32);
    v.push(49);
    v.push(54);
    v.push(41);
    proof {
        assert(v@ =~= base16_marker());
    }
    v
}

/// Builds the legend marker bytes.
fn hex_marker_vec() -> (r: Vec<u8>)
    ensures
        r@ == hex_marker(),
{
    let mut v: Vec<u8> = Vec::new();
    v.push(40);
    v.push(104);
    v.push(101);
    v.push(120);
    v.push(41);
    proof {
        assert(v@ =~= hex_marker());
    }
    v
}

/// A header line: carries the header marker and is not a legend line.
pub open spec fn is_header(line: Seq<u8>) -> bool {
    contains_seq(line, base16_marker()) && !contains_seq(line, hex_marker())
}

/// A line that terminates the current record's address accumulation:
/// a blank line, a new header line, or a legend line.
pub open spec fn is_terminator(line: Seq<u8>) -> bool {
    is_blank(line) || contains_seq(line, base16_marker()) || contains_seq(line, hex_marker())
}

/// Decides `is_terminator`.
fn terminator_line(line: &Vec<u8>, base16: &Vec<u8>, hexm: &Vec<u8>) -> (r: bool)
    requires
        base16@ == base16_marker(),
        hexm@ == hex_marker(),
    ensures
        r == is_terminator(line@),
{
    blank_line(line) || contains_pattern(line, base16) || contains_pattern(line, hexm)
}

/// Index of the first record-terminating line at or after `j`, or
/// `lines.len()` if none.
pub open spec fn addr_end(lines: Seq<Seq<u8>>, j: int) -> int
    decreases lines.len() - j,
        when 0 <= j <= lines.len()
{
    if j >= lines.len() {
        j
    } else if is_terminator(lines[j]) {
        j
    } else {
        addr_end(lines, j + 1)
    }
}

/// `addr_end` stays within the document and is characterized by its run
/// of non-terminating lines.
pub proof fn lemma_addr_end_bounds(lines: Seq<Seq<u8>>, j: int)
    requires
        0 <= j <= lines.len(),
    ensures
        j <= addr_end(lines, j) <= lines.len(),
    decreases lines.len() - j,
{
    if j < lines.len() && !is_terminator(lines[j]) {
        lemma_addr_end_bounds(lines, j + 1);
    }
}

/// A run of non-terminating lines from `s` up to a terminator (or the end
/// of the document) at `j` puts `addr_end` exactly at `j`.
pub proof fn lemma_addr_end_run(lines: Seq<Seq<u8>>, s: int, j: int)
    requires
        0 <= s <= j <= lines.len(),
        forall|m: int| s <= m < j ==> !is_terminator(#[trigger] lines[m]),
        j == lines.len() || is_terminator(lines[j]),
    ensures
        addr_end(lines, s) == j,
    decreases j - s,
{
    if s < j {
        lemma_addr_end_run(lines, s + 1, j);
    }
}

/// A result of `rfind_from` is a match position.
pub proof fn lemma_rfind_is_match(line: Seq<u8>, pat: Seq<u8>, i0: int, i: int)
    requires
        -1 - pat.len() <= i0,
        rfind_from(line, pat, i0) == Some(i),
    ensures
        match_at(line, pat, i),
    decreases i0 + 1,
{
    if i0 >= 0 && !match_at(line, pat, i0) {
        lemma_rfind_is_match(line, pat, i0 - 1, i);
    }
}

/// Where some match exists at or before `i0`, `rfind_from` finds one.
pub proof fn lemma_rfind_finds(line: Seq<u8>, pat: Seq<u8>, w: int, i0: int)
    requires
        match_at(line, pat, w),
        w <= i0,
    ensures
        rfind_from(line, pat, i0) is Some,
    decreases i0 - w,
{
    if !match_at(line, pat, i0) {
        lemma_rfind_finds(line, pat, w, i0 - 1);
    }
}

/// A line that contains the pattern has a last occurrence of it.
pub proof fn lemma_contains_rfind(line: Seq<u8>, pat: Seq<u8>)
    requires
        contains_seq(line, pat),
    ensures
        rfind_seq(line, pat) is Some,
        match_at(line, pat, rfind_seq(line, pat)->Some_0),
{
    let w = choose|w: int| match_at(line, pat, w);
    lemma_rfind_finds(line, pat, w, line.len() - pat.len());
    lemma_rfind_is_match(line, pat, line.len() - pat.len(), rfind_seq(line, pat)->Some_0);
}

/// The company name carried by a header line: everything after the last
/// occurrence of the header marker, left-trimmed; empty if the marker is
/// absent.
pub open spec fn company_of(line: Seq<u8>) -> Seq<u8> {
    match rfind_seq(line, base16_marker()) {
        Some(i) => trim_start_seq(line.skip(i + base16_marker().len())),
        None => Seq::empty(),
    }
}

/// The record a header line and its following address lines denote:
/// the first six characters as prefix, the company name after the marker,
/// each address line left-trimmed, and the derived location and country.
pub open spec fn header_record(line: Seq<u8>, body: Seq<Seq<u8>>) -> RecordModel {
    let addrs = body.map_values(|l: Seq<u8>| trim_start_seq(l));
    RecordModel {
        prefix: line.take(6),
        company_name: company_of(line),
        address_lines: addrs,
        location: derived_location(addrs),
        country: derived_country(addrs),
    }
}

/// The mapping parsed from the lines at or after `i`: header lines with a
/// valid six-character prefix contribute a record keyed by that prefix;
/// a later record under the same key overwrites an earlier one; all other
/// lines are skipped. A header whose first six characters are not valid
/// uppercase hexadecimal is a recoverable anomaly: the record is dropped.
pub open spec fn parse_from(lines: Seq<Seq<u8>>, i: int) -> Map<u32, RecordModel>
    decreases lines.len() - i,
        when 0 <= i <= lines.len()
        via parse_from_decreases
{
    if i >= lines.len() {
        Map::empty()
    } else if !is_header(lines[i]) {
        parse_from(lines, i + 1)
    } else if lines[i].len() >= 6 && is_valid_prefix(lines[i].take(6)) {
        let end = addr_end(lines, i + 1);
        let rec = header_record(lines[i], lines.subrange(i + 1, end));
        Map::empty().insert(prefix_key(rec.prefix) as u32, rec).union_prefer_right(
            parse_from(lines, end),
        )
    } else {
        parse_from(lines, i + 1)
    }
}

#[via_fn]
proof fn parse_from_decreases(lines: Seq<Seq<u8>>, i: int) {
    if 0 <= i < lines.len() {
        lemma_addr_end_bounds(lines, i + 1);
    }
}

/// Index of the first line scanned: the preamble is skipped whole, or the
/// document ends first.
pub open spec fn preamble_skip(lines: Seq<Seq<u8>>) -> int {
    if lines.len() < PREAMBLE_LINES {
        lines.len() as int
    } else {
        PREAMBLE_LINES as int
    }
}

/// The record mapping parsed from a whole document.
pub open spec fn parse_doc(text: Seq<u8>) -> Map<u32, RecordModel> {
    let lines = lines_seq(text);
    parse_from(lines, preamble_skip(lines))
}

/// Every record parsed is well formed — its prefix is exactly six
/// uppercase hexadecimal characters, and its derived fields follow from
/// its address lines — and sits under the key its prefix denotes.
pub proof fn lemma_parse_from_records_wf(lines: Seq<Seq<u8>>, i: int)
    requires
        0 <= i <= lines.len(),
    ensures
        forall|k: u32| #[trigger]
            parse_from(lines, i).contains_key(k) ==> parse_from(lines, i)[k].wf() && record_key(
                parse_from(lines, i)[k],
            ) == k,
    decreases lines.len() - i,
{
    if i >= lines.len() {
    } else if !is_header(lines[i]) {
        lemma_parse_from_records_wf(lines, i + 1);
        assert(parse_from(lines, i) == parse_from(lines, i + 1));
    } else if lines[i].len() >= 6 && is_valid_prefix(lines[i].take(6)) {
        lemma_addr_end_bounds(lines, i + 1);
        let end = addr_end(lines, i + 1);
        lemma_parse_from_records_wf(lines, end);
        let rec = header_record(lines[i], lines.subrange(i + 1, end));
        let rest = parse_from(lines, end);
        let m1 = Map::empty().insert(prefix_key(rec.prefix) as u32, rec);
        let u = m1.union_prefer_right(rest);
        assert(parse_from(lines, i) == u);
        assert(rec.prefix == lines[i].take(6));
        assert(rec.wf());
        assert forall|k: u32| #[trigger] u.contains_key(k) implies u[k].wf() && record_key(u[k])
            == k by {
            if rest.contains_key(k) {
                assert(u[k] == rest[k]);
            } else {
                assert(m1.contains_key(k));
                assert(k == prefix_key(rec.prefix) as u32);
                assert(u[k] == rec);
            }
        }
        assert(forall|k: u32| #[trigger]
            parse_from(lines, i).contains_key(k) ==> parse_from(lines, i)[k].wf() && record_key(
                parse_from(lines, i)[k],
            ) == k);
    } else {
        assert(parse_from(lines, i) == parse_from(lines, i + 1));
        lemma_parse_from_records_wf(lines, i + 1);
    }
}

/// Parses a whole registry document into a record set, as `parse_doc`
/// describes: the preamble is skipped, each header line with a valid
/// six-character prefix yields one record with its derived fields, a
/// malformed header is skipped silently, and a later record under an
/// already-seen prefix overwrites the earlier one. An empty or
/// unparseable document yields an empty record set.
pub fn parse(text: &Vec<u8>) -> (r: RecordStore)
    ensures
        r.wf(),
        r@ == parse_doc(text@),
{
    let lines = split_lines(text);
    let ghost lv = lines.deep_view();
    let base16 = base16_marker_vec();
    let hexm = hex_marker_vec();
    let mut store = RecordStore::new();
    let mut i: usize = if lines.len() < PREAMBLE_LINES {
        lines.len()
    } else {
        PREAMBLE_LINES
    };
    proof {
        assert(store@.union_prefer_right(parse_from(lv, i as int)) =~= parse_from(
            lv,
            preamble_skip(lv),
        ));
    }
    while i < lines.len()
        invariant
            store.wf(),
            0 <= i <= lv.len(),
            lv == lines.deep_view(),
            lines@.len() == lv.len(),
            base16@ == base16_marker(),
            hexm@ == hex_marker(),
            parse_doc(text@) == store@.union_prefer_right(parse_from(lv, i as int)),
        decreases lv.len() - i,
    {
        proof {
            assert(lv[i as int] == lines@[i as int].deep_view());
            assert(lv[i as int] =~= lines@[i as int]@);
        }
        let ghost old_store = store@;
        if contains_pattern(&lines[i], &hexm) {
            proof {
                assert(parse_from(lv, i as int) == parse_from(lv, i + 1));
            }
            i += 1;
        } else if contains_pattern(&lines[i], &base16) {
            let prefix = if lines[i].len() >= 6 {
                subrange_vec(&lines[i], 0, 6)
            } else {
                Vec::new()
            };
            proof {
                if lines@[i as int]@.len() >= 6 {
                    assert(prefix@ =~= lv[i as int].take(6));
                }
            }
            if crate::prefix::valid_prefix(&prefix) {
                let company = match rfind_pattern(&lines[i], &base16) {
                    Some(idx) => {
                        proof {
                            lemma_contains_rfind(lv[i as int], base16_marker());
                        }
                        let tail = subrange_vec(&lines[i], idx + 9, lines[i].len());
                        proof {
                            assert(tail@ =~= lv[i as int].skip(idx + 9));
                        }
                        trim_start(&tail)
                    },
                    None => {
                        proof {
                            lemma_contains_rfind(lv[i as int], base16_marker());
                        }
                        vstd::pervasive::unreached()
                    },
                };
                let mut addrs: Vec<Vec<u8>> = Vec::new();
                let mut j: usize = i + 1;
                loop
                    invariant
                        i + 1 <= j <= lv.len(),
                        lv == lines.deep_view(),
                        lines@.len() == lv.len(),
                        base16@ == base16_marker(),
                        hexm@ == hex_marker(),
                        forall|m: int| i + 1 <= m < j ==> !is_terminator(#[trigger] lv[m]),
                        addrs.deep_view() == lv.subrange(i + 1, j as int).map_values(
                            |l: Seq<u8>| trim_start_seq(l),
                        ),
                    ensures
                        i + 1 <= j <= lv.len(),
                        j as int == addr_end(lv, i + 1),
                        addrs.deep_view() == lv.subrange(i + 1, j as int).map_values(
                            |l: Seq<u8>| trim_start_seq(l),
                        ),
                    decreases lv.len() - j,
                {
                    if j >= lines.len() {
                        proof {
                            lemma_addr_end_run(lv, i + 1, j as int);
                        }
                        break ;
                    }
                    proof {
                        assert(lv[j as int] == lines@[j as int].deep_view());
                        assert(lv[j as int] =~= lines@[j as int]@);
                    }
                    if terminator_line(&lines[j], &base16, &hexm) {
                        proof {
                            lemma_addr_end_run(lv, i + 1, j as int);
                        }
                        break ;
                    }
                    let ghost prev_addrs = addrs.deep_view();
                    let trimmed = trim_start(&lines[j]);
                    proof {
                        assert(trimmed.deep_view() =~= trimmed@);
                    }
                    addrs.push(trimmed);
                    proof {
                        assert(addrs.deep_view() =~= prev_addrs.push(
                            trim_start_seq(lv[j as int]),
                        ));
                        assert(lv.subrange(i + 1, j + 1) =~= lv.subrange(i + 1, j as int).push(
                            lv[j as int],
                        ));
                        assert(lv.subrange(i + 1, j + 1).map_values(
                            |l: Seq<u8>| trim_start_seq(l),
                        ) =~= lv.subrange(i + 1, j as int).map_values(
                            |l: Seq<u8>| trim_start_seq(l),
                        ).push(trim_start_seq(lv[j as int])));
                    }
                    j += 1;
                }
                let ghost rec_model = header_record(
                    lv[i as int],
                    lv.subrange(i + 1, j as int),
                );
                let rec = match VendorRecord::new(prefix, company, addrs) {
                    Ok(rec) => rec,
                    Err(_) => vstd::pervasive::unreached(),
                };
                proof {
                    assert(rec@.address_lines == rec_model.address_lines);
                    assert(rec@ == rec_model);
                }
                store.insert(rec);
                proof {
                    let k = prefix_key(rec_model.prefix) as u32;
                    let rest = parse_from(lv, j as int);
                    assert(parse_from(lv, i as int) == Map::empty().insert(
                        k,
                        rec_model,
                    ).union_prefer_right(rest));
                    assert(store@.union_prefer_right(rest) =~= old_store.union_prefer_right(
                        parse_from(lv, i as int),
                    ));
                }
                i = j;
            } else {
                proof {
                    assert(parse_from(lv, i as int) == parse_from(lv, i + 1));
                }
                i += 1;
            }
        } else {
            proof {
                assert(!is_header(lv[i as int]));
                assert(parse_from(lv, i as int) == parse_from(lv, i + 1));
            }
            i += 1;
        }
    }
    proof {
        assert(parse_from(lv, lv.len() as int) == Map::<u32, RecordModel>::empty());
        assert(store@.union_prefer_right(Map::empty()) =~= store@);
    }
    store
}

/// Every successfully parsed record of any document has a `prefix` of
/// exactly six uppercase hexadecimal characters.
pub proof fn lemma_parsed_prefixes_valid(text: Seq<u8>)
    ensures
        forall|k: u32| #[trigger]
            parse_doc(text).contains_key(k) ==> is_valid_prefix(parse_doc(text)[k].prefix),
{
    let lines = lines_seq(text);
    lemma_parse_from_records_wf(lines, preamble_skip(lines));
}

} // verus!
