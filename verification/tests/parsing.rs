use oui_lookup::parser::parse;
use oui_lookup::record::{RecordError, VendorRecord};
use oui_lookup::store::RecordStore;

fn sample_document() -> Vec<u8> {
    let text = "OUI/MA-L public listing\n\
                For more information, see the legend.\n\
                \n\
                OUI/MA-L   Organization\n\
                company_id Organization\n\
                \n\
                6C-63-9C   (hex)\t\tExample Corp\n\
                6C639C     (base 16)\t\tExample Corp\n\
                \t\t\t\t123 Main Street\n\
                \t\t\t\tSpringfield\n\
                \t\t\t\tUS\n\
                \n\
                28-6F-B9   (hex)\t\tShanghai Bell\n\
                286FB9     (base 16)\t\tShanghai Bell\n\
                \t\t\t\tBuilding 1\n\
                \t\t\t\tShanghai\n\
                \t\t\t\tCN\n";
    text.as_bytes().to_vec()
}

#[test]
fn parse_two_records() {
    let store = parse(&sample_document());
    assert_eq!(store.len(), 2);
    let rec = store.get(0x6C639C).expect("first record present");
    assert_eq!(rec.prefix, b"6C639C".to_vec());
    assert_eq!(rec.company_name, b"Example Corp".to_vec());
    assert_eq!(rec.address_lines.len(), 3);
    assert_eq!(rec.address_lines[0], b"123 Main Street".to_vec());
    assert_eq!(rec.location, b"Springfield".to_vec());
    assert_eq!(rec.country, b"US".to_vec());
    let rec2 = store.get(0x286FB9).expect("second record present");
    assert_eq!(rec2.company_name, b"Shanghai Bell".to_vec());
    assert_eq!(rec2.location, b"Shanghai".to_vec());
    assert_eq!(rec2.country, b"CN".to_vec());
}

#[test]
fn parse_crlf_document() {
    let text = sample_document();
    let mut crlf: Vec<u8> = Vec::new();
    for b in text {
        if b == b'\n' {
            crlf.push(b'\r');
        }
        crlf.push(b);
    }
    let store = parse(&crlf);
    assert_eq!(store.len(), 2);
    let rec = store.get(0x6C639C).expect("record present");
    assert_eq!(rec.country, b"US".to_vec());
}

#[test]
fn parse_skips_preamble() {
    // A header inside the four skipped preamble lines is never scanned.
    let text = "6C639C     (base 16)\t\tToo Early Inc\n\
                line two\n\
                line three\n\
                line four\n";
    let store = parse(&text.as_bytes().to_vec());
    assert_eq!(store.len(), 0);
}

#[test]
fn parse_empty_document() {
    let store = parse(&Vec::new());
    assert_eq!(store.len(), 0);
}

#[test]
fn parse_last_write_wins() {
    let text = "p1\np2\np3\np4\n\
                6C639C     (base 16)\t\tFirst Name\n\
                \n\
                6C639C     (base 16)\t\tSecond Name\n\
                \t\t\t\tSomewhere\n\
                \t\t\t\tUS\n";
    let store = parse(&text.as_bytes().to_vec());
    assert_eq!(store.len(), 1);
    let rec = store.get(0x6C639C).expect("record present");
    assert_eq!(rec.company_name, b"Second Name".to_vec());
    assert_eq!(rec.country, b"US".to_vec());
}

#[test]
fn parse_drops_truncated_header() {
    // A header line whose first six characters are not hexadecimal (here
    // the marker itself starts the line) is skipped, not inserted.
    let text = "p1\np2\np3\np4\n(base 16)\n";
    let store = parse(&text.as_bytes().to_vec());
    assert_eq!(store.len(), 0);
}

#[test]
fn parse_drops_lowercase_prefix() {
    let text = "p1\np2\np3\np4\n6c639c     (base 16)\t\tLower Case Co\n";
    let store = parse(&text.as_bytes().to_vec());
    assert_eq!(store.len(), 0);
}

#[test]
fn parse_record_without_address_lines() {
    let text = "p1\np2\np3\np4\n\
                6C639C     (base 16)\t\tBare Corp\n\
                \n";
    let store = parse(&text.as_bytes().to_vec());
    assert_eq!(store.len(), 1);
    let rec = store.get(0x6C639C).expect("record present");
    assert_eq!(rec.company_name, b"Bare Corp".to_vec());
    assert_eq!(rec.address_lines.len(), 0);
    assert_eq!(rec.location, b"".to_vec());
    assert_eq!(rec.country, b"".to_vec());
}

#[test]
fn parse_whitespace_line_terminates_record() {
    // A line of only whitespace ends address accumulation and is not
    // stored as an address line.
    let text = "p1\np2\np3\np4\n\
                6C639C     (base 16)\t\tExample Corp\n\
                \t\t\t\tSpringfield\n\
                \t\t\t\tUS\n\
                \t \t\n\
                \t\t\t\tNot An Address\n";
    let store = parse(&text.as_bytes().to_vec());
    assert_eq!(store.len(), 1);
    let rec = store.get(0x6C639C).expect("record present");
    assert_eq!(rec.address_lines.len(), 2);
    assert_eq!(rec.location, b"Springfield".to_vec());
    assert_eq!(rec.country, b"US".to_vec());
}

#[test]
fn parse_header_without_company_name() {
    // Nothing after the marker: the company name is empty, the record kept.
    let text = "p1\np2\np3\np4\n6C639C     (base 16)\n";
    let store = parse(&text.as_bytes().to_vec());
    assert_eq!(store.len(), 1);
    let rec = store.get(0x6C639C).expect("record present");
    assert_eq!(rec.company_name, b"".to_vec());
}

#[test]
fn record_new_derives_fields() {
    let rec = VendorRecord::new(
        b"6C639C".to_vec(),
        b"Example Corp".to_vec(),
        vec![b"Springfield".to_vec(), b"US".to_vec()],
    )
    .expect("valid prefix accepted");
    assert_eq!(rec.location, b"Springfield".to_vec());
    assert_eq!(rec.country, b"US".to_vec());
}

#[test]
fn record_new_no_address_lines() {
    let rec = VendorRecord::new(b"6C639C".to_vec(), b"Example Corp".to_vec(), Vec::new())
        .expect("valid prefix accepted");
    assert_eq!(rec.location, b"".to_vec());
    assert_eq!(rec.country, b"".to_vec());
    // Such a record is still insertable.
    let mut store = RecordStore::new();
    store.insert(rec);
    assert_eq!(store.len(), 1);
}

#[test]
fn record_new_rejects_malformed_prefix() {
    let short = VendorRecord::new(b"6C639".to_vec(), b"X".to_vec(), Vec::new());
    assert_eq!(short.err(), Some(RecordError::MalformedRecord));
    let lower = VendorRecord::new(b"6c639c".to_vec(), b"X".to_vec(), Vec::new());
    assert_eq!(lower.err(), Some(RecordError::MalformedRecord));
    let long = VendorRecord::new(b"6C639C0".to_vec(), b"X".to_vec(), Vec::new());
    assert_eq!(long.err(), Some(RecordError::MalformedRecord));
}
