use oui_lookup::record::VendorRecord;
use oui_lookup::store::RecordStore;
use oui_lookup::table::{compile, CompiledTable, LookupError};

fn example_table() -> CompiledTable {
    let mut store = RecordStore::new();
    let rec = VendorRecord::new(
        b"6C639C".to_vec(),
        b"Example Corp".to_vec(),
        vec![b"Springfield".to_vec(), b"US".to_vec()],
    )
    .expect("valid prefix accepted");
    store.insert(rec);
    compile(&store)
}

#[test]
fn round_trip_lookup() {
    let table = example_table();
    let id = b"6C:63:9C:B6:92:09".to_vec();
    let info = table.lookup(&id).expect("well-formed identifier").expect("registered prefix");
    assert_eq!(info.company_name, b"Example Corp".to_vec());
    assert_eq!(info.location, b"Springfield".to_vec());
    assert_eq!(info.country, b"US".to_vec());
}

#[test]
fn lookup_unregistered_prefix_not_found() {
    let table = example_table();
    let id = b"00:00:00:11:22:33".to_vec();
    let r = table.lookup(&id).expect("well-formed identifier");
    assert!(r.is_none());
}

#[test]
fn lookup_short_identifier_invalid_format() {
    let table = example_table();
    let id = b"6C:63".to_vec();
    match table.lookup(&id) {
        Err(e) => assert_eq!(e, LookupError::InvalidFormat),
        Ok(_) => panic!("a short identifier must be rejected"),
    }
}

#[test]
fn lookup_empty_identifier_invalid_format() {
    let table = example_table();
    let id = Vec::new();
    match table.lookup(&id) {
        Err(e) => assert_eq!(e, LookupError::InvalidFormat),
        Ok(_) => panic!("an empty identifier must be rejected"),
    }
}

#[test]
fn lookup_lowercase_identifier_found() {
    let table = example_table();
    let id = b"6c:63:9c:b6:92:09".to_vec();
    let info = table.lookup(&id).expect("well-formed identifier").expect("registered prefix");
    assert_eq!(info.company_name, b"Example Corp".to_vec());
}

#[test]
fn lookup_hyphen_identifier_not_found() {
    // Normalization removes colons only; a hyphen-separated identifier
    // cannot match a registered six-character prefix.
    let table = example_table();
    let id = b"6C-63-9C-B6-92-09".to_vec();
    let r = table.lookup(&id).expect("well-formed identifier");
    assert!(r.is_none());
}

#[test]
fn lookup_is_idempotent() {
    let table = example_table();
    let id = b"6C:63:9C:B6:92:09".to_vec();
    let first = table.lookup(&id).expect("well-formed").expect("registered").company_name.clone();
    let second = table.lookup(&id).expect("well-formed").expect("registered").company_name.clone();
    assert_eq!(first, second);
    let missing = b"00:00:00:11:22:33".to_vec();
    assert!(table.lookup(&missing).expect("well-formed").is_none());
    assert!(table.lookup(&missing).expect("well-formed").is_none());
}

#[test]
fn compile_twice_answers_alike() {
    let mut store = RecordStore::new();
    let rec = VendorRecord::new(
        b"286FB9".to_vec(),
        b"Shanghai Bell".to_vec(),
        vec![b"Shanghai".to_vec(), b"CN".to_vec()],
    )
    .expect("valid prefix accepted");
    store.insert(rec);
    let t1 = compile(&store);
    let t2 = compile(&store);
    let queries: Vec<Vec<u8>> = vec![
        b"28:6F:B9:00:00:01".to_vec(),
        b"6C:63:9C:B6:92:09".to_vec(),
        b"28-6F-B9-00-00-01".to_vec(),
    ];
    for q in queries {
        let a1 = t1.lookup(&q).expect("well-formed").map(|i| i.company_name.clone());
        let a2 = t2.lookup(&q).expect("well-formed").map(|i| i.company_name.clone());
        assert_eq!(a1, a2);
    }
}

#[test]
fn compile_empty_store() {
    let store = RecordStore::new();
    let table = compile(&store);
    let id = b"6C:63:9C:B6:92:09".to_vec();
    assert!(table.lookup(&id).expect("well-formed").is_none());
}

#[test]
fn lookup_overwritten_record_answers_latest() {
    let mut store = RecordStore::new();
    let first = VendorRecord::new(b"6C639C".to_vec(), b"Old Name".to_vec(), Vec::new())
        .expect("valid prefix accepted");
    let second = VendorRecord::new(b"6C639C".to_vec(), b"New Name".to_vec(), Vec::new())
        .expect("valid prefix accepted");
    store.insert(first);
    store.insert(second);
    assert_eq!(store.len(), 1);
    let table = compile(&store);
    let id = b"6C:63:9C:00:00:00".to_vec();
    let info = table.lookup(&id).expect("well-formed").expect("registered");
    assert_eq!(info.company_name, b"New Name".to_vec());
}
