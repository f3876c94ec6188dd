use std::collections::HashMap;

use termcap::errors::ResolveError;
use termcap::names::NameTable;
use termcap::resolver::{on_alias_reply, on_data_reply, resolve_begin, LookupReply, Outcome, Step};

#[test]
fn resolution_begins_with_the_name_as_key() {
    match resolve_begin("vt") {
        Step::FetchAlias(key) => assert_eq!(key.as_slice(), b"vt"),
        _ => panic!("expected an alias fetch"),
    }
}

#[test]
fn absent_alias_record_means_unknown_not_error() {
    let s = on_alias_reply(LookupReply::Absent);
    assert!(matches!(s, Step::Done(Outcome::Unknown)));
}

#[test]
fn alias_record_with_wrong_marker_means_unknown() {
    let s = on_alias_reply(LookupReply::Found(vec![5, b'x']));
    assert!(matches!(s, Step::Done(Outcome::Unknown)));
}

#[test]
fn empty_alias_record_means_unknown() {
    let s = on_alias_reply(LookupReply::Found(vec![]));
    assert!(matches!(s, Step::Done(Outcome::Unknown)));
}

#[test]
fn alias_lookup_io_failure_is_surfaced() {
    let s = on_alias_reply(LookupReply::Failed(13));
    assert!(matches!(s, Step::Done(Outcome::Failed(ResolveError::Io(13)))));
}

#[test]
fn well_shaped_alias_record_names_the_data_key() {
    match on_alias_reply(LookupReply::Found(vec![2, b'x', b'y'])) {
        Step::FetchData(key) => assert_eq!(key.as_slice(), b"xy"),
        _ => panic!("expected a data fetch"),
    }
}

#[test]
fn data_record_with_wrong_marker_is_invalid() {
    let table = NameTable::new();
    let o = on_data_reply(&table, LookupReply::Found(vec![1, b'a']));
    assert!(matches!(o, Outcome::Failed(ResolveError::Invalid)));
}

#[test]
fn empty_data_record_is_invalid() {
    let table = NameTable::new();
    let o = on_data_reply(&table, LookupReply::Found(vec![]));
    assert!(matches!(o, Outcome::Failed(ResolveError::Invalid)));
}

#[test]
fn absent_data_record_is_an_error() {
    let table = NameTable::new();
    let o = on_data_reply(&table, LookupReply::Absent);
    assert!(matches!(o, Outcome::Failed(ResolveError::MissingData)));
}

#[test]
fn data_lookup_io_failure_is_surfaced() {
    let table = NameTable::new();
    let o = on_data_reply(&table, LookupReply::Failed(5));
    assert!(matches!(o, Outcome::Failed(ResolveError::Io(5))));
}

#[test]
fn non_utf8_data_record_is_a_decoding_error() {
    let table = NameTable::new();
    let o = on_data_reply(&table, LookupReply::Found(vec![0, 0xff, 0xfe]));
    assert!(matches!(o, Outcome::Failed(ResolveError::Decoding)));
}

#[test]
fn malformed_numeric_field_fails_the_resolution() {
    let table = NameTable::new();
    let mut rec = vec![0u8];
    rec.extend_from_slice(b"t:co#x");
    let o = on_data_reply(&table, LookupReply::Found(rec));
    assert!(matches!(o, Outcome::Failed(ResolveError::UnparsableNumeric)));
}

#[test]
fn good_data_record_resolves_to_capabilities() {
    let table = NameTable::new();
    let mut rec = vec![0u8];
    rec.extend_from_slice(b"myterm|other:am:co#80:ve=\\Ex");
    let o = on_data_reply(&table, LookupReply::Found(rec));
    match o {
        Outcome::Resolved(caps) => {
            let names: Vec<&str> = caps.names.iter().map(|s| s.as_str()).collect();
            assert_eq!(names, vec!["myterm", "other"]);
            assert!(caps.bool_cap("am"));
            assert_eq!(caps.num_cap("co"), Some(80));
            assert_eq!(caps.str_cap("ve").unwrap().as_slice(), &[0x1b, b'x']);
        },
        _ => panic!("expected a resolved terminal"),
    }
}

/// A stand-in database that counts how often it is opened and closed,
/// so the pairing can be checked on every control-flow path.
struct FakeDb {
    records: HashMap<Vec<u8>, Vec<u8>>,
    opens: u32,
    closes: u32,
}

impl FakeDb {
    fn new(records: Vec<(&[u8], &[u8])>) -> FakeDb {
        let map = records.iter().map(|(k, v)| (k.to_vec(), v.to_vec())).collect();
        FakeDb { records: map, opens: 0, closes: 0 }
    }

    fn open(&mut self) {
        self.opens += 1;
    }

    fn close(&mut self) {
        self.closes += 1;
    }

    fn get(&self, key: &[u8]) -> LookupReply {
        match self.records.get(key) {
            Some(v) => LookupReply::Found(v.clone()),
            None => LookupReply::Absent,
        }
    }
}

fn resolve_against(db: &mut FakeDb, name: &str) -> Outcome {
    let table = NameTable::new();
    db.open();
    let outcome = match resolve_begin(name) {
        Step::FetchAlias(key) => match on_alias_reply(db.get(&key)) {
            Step::Done(o) => o,
            Step::FetchData(key2) => on_data_reply(&table, db.get(&key2)),
            Step::FetchAlias(_) => unreachable!(),
        },
        _ => unreachable!(),
    };
    db.close();
    outcome
}

#[test]
fn handle_is_closed_once_on_every_path() {
    let mut rec = vec![0u8];
    rec.extend_from_slice(b"vt|term:am:co#80");
    let mut bad = vec![9u8];
    bad.extend_from_slice(b"junk");
    let mut fatal = vec![0u8];
    fatal.extend_from_slice(b"vt:co#zz");
    let mut db = FakeDb::new(vec![
        (b"vt".as_slice(), b"\x02vt-canonical".as_slice()),
        (b"vt-canonical".as_slice(), rec.as_slice()),
        (b"odd".as_slice(), bad.as_slice()),
        (b"dangling".as_slice(), b"\x02nowhere".as_slice()),
        (b"broken".as_slice(), b"\x02broken-data".as_slice()),
        (b"broken-data".as_slice(), fatal.as_slice()),
    ]);

    assert!(matches!(resolve_against(&mut db, "vt"), Outcome::Resolved(_)));
    assert!(matches!(resolve_against(&mut db, "nosuch"), Outcome::Unknown));
    assert!(matches!(resolve_against(&mut db, "odd"), Outcome::Unknown));
    assert!(matches!(
        resolve_against(&mut db, "dangling"),
        Outcome::Failed(ResolveError::MissingData)
    ));
    assert!(matches!(
        resolve_against(&mut db, "broken"),
        Outcome::Failed(ResolveError::UnparsableNumeric)
    ));
    assert_eq!(db.opens, 5);
    assert_eq!(db.closes, db.opens);
}
