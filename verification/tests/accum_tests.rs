//! Tests of the deduplicating accumulator.

use most_important_deps::accum::JobAccumulator;
use most_important_deps::extract::ExtractedRecord;

fn rec(key: &str, payload: &str) -> ExtractedRecord {
    ExtractedRecord {
        identity_key: key.as_bytes().to_vec(),
        payload: payload.as_bytes().to_vec(),
    }
}

#[test]
fn distinct_keys_are_all_kept() {
    let mut acc = JobAccumulator::new();
    acc.insert(rec("abc", "abc;x86_64-linux;5"));
    acc.insert(rec("def", "def;x86_64-linux;6"));
    let records = acc.records();
    assert_eq!(records.len(), 2);
    assert_eq!(records[0].payload, b"abc;x86_64-linux;5".to_vec());
    assert_eq!(records[1].payload, b"def;x86_64-linux;6".to_vec());
}

#[test]
fn duplicate_key_keeps_one_record_with_last_payload() {
    let mut acc = JobAccumulator::new();
    acc.insert(rec("abc", "abc;x86_64-linux;5"));
    acc.insert(rec("abc", "abc;x86_64-linux;9"));
    let records = acc.records();
    assert_eq!(records.len(), 1);
    assert_eq!(records[0].identity_key, b"abc".to_vec());
    assert_eq!(records[0].payload, b"abc;x86_64-linux;9".to_vec());
}

#[test]
fn duplicates_across_interleaved_inserts_collapse() {
    let mut acc = JobAccumulator::new();
    acc.insert(rec("abc", "a1"));
    acc.insert(rec("def", "d1"));
    acc.insert(rec("abc", "a2"));
    acc.insert(rec("ghi", "g1"));
    acc.insert(rec("def", "d2"));
    let records = acc.records();
    assert_eq!(records.len(), 3);
    let keys: Vec<&[u8]> = records.iter().map(|r| r.identity_key.as_slice()).collect();
    assert_eq!(keys, vec![b"abc".as_slice(), b"def".as_slice(), b"ghi".as_slice()]);
    assert_eq!(records[0].payload, b"a2".to_vec());
    assert_eq!(records[1].payload, b"d2".to_vec());
}

#[test]
fn key_set_does_not_depend_on_insertion_order() {
    let mut one = JobAccumulator::new();
    one.insert(rec("abc", "a1"));
    one.insert(rec("def", "d1"));
    let mut other = JobAccumulator::new();
    other.insert(rec("def", "d1"));
    other.insert(rec("abc", "a1"));
    let mut keys_one: Vec<Vec<u8>> =
        one.records().iter().map(|r| r.identity_key.clone()).collect();
    let mut keys_other: Vec<Vec<u8>> =
        other.records().iter().map(|r| r.identity_key.clone()).collect();
    keys_one.sort();
    keys_other.sort();
    assert_eq!(keys_one, keys_other);
}
