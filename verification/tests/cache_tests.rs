//! Tests of cache entry naming, content rendering, planning and pruning.

use most_important_deps::accum::JobAccumulator;
use most_important_deps::cache::{
    cache_entry_name, janitor_should_delete, plan_jobs, render_companion, render_records,
    staging_entry_name,
};
use most_important_deps::extract::ExtractedRecord;
use most_important_deps::page::detail_page_url;

fn rec(key: &str, payload: &str) -> ExtractedRecord {
    ExtractedRecord {
        identity_key: key.as_bytes().to_vec(),
        payload: payload.as_bytes().to_vec(),
    }
}

#[test]
fn entry_names_carry_the_job_identifier() {
    assert_eq!(cache_entry_name(42), b"42.cache".to_vec());
    assert_eq!(cache_entry_name(0), b"0.cache".to_vec());
    assert_eq!(staging_entry_name(42), b"42.cache.new".to_vec());
    assert_eq!(cache_entry_name(18446744073709551615), b"18446744073709551615.cache".to_vec());
}

#[test]
fn detail_page_url_appends_the_build() {
    assert_eq!(detail_page_url(7), b"https://hydra.nixos.org/build/7".to_vec());
    assert_eq!(detail_page_url(1234), b"https://hydra.nixos.org/build/1234".to_vec());
}

#[test]
fn rendered_entry_has_one_line_per_record() {
    let mut acc = JobAccumulator::new();
    acc.insert(rec("abc", "abc;x86_64-linux;5"));
    acc.insert(rec("def", "def;x86_64-linux;6"));
    assert_eq!(
        render_records(&acc),
        b"abc;x86_64-linux;5\ndef;x86_64-linux;6\n".to_vec()
    );
}

#[test]
fn rendered_empty_accumulator_is_empty() {
    let acc = JobAccumulator::new();
    assert_eq!(render_records(&acc), Vec::<u8>::new());
}

#[test]
fn companion_line_gets_a_line_feed() {
    assert_eq!(render_companion(b"5;mypkg;7"), b"5;mypkg;7\n".to_vec());
    assert_eq!(render_companion(b""), b"\n".to_vec());
}

#[test]
fn janitor_deletes_only_unknown_cache_entries() {
    let known = vec![42u64, 43u64];
    assert!(janitor_should_delete(b"7.cache", &known));
    assert!(!janitor_should_delete(b"42.cache", &known));
    assert!(!janitor_should_delete(b"43.cache", &known));
}

#[test]
fn janitor_leaves_what_it_does_not_understand() {
    let known = vec![42u64];
    // A staging file, a foreign file, a malformed stem, an empty stem, an
    // overflowing stem: all untouched.
    assert!(!janitor_should_delete(b"7.cache.new", &known));
    assert!(!janitor_should_delete(b"readme.txt", &known));
    assert!(!janitor_should_delete(b"abc.cache", &known));
    assert!(!janitor_should_delete(b".cache", &known));
    assert!(!janitor_should_delete(b"99999999999999999999.cache", &known));
    assert!(!janitor_should_delete(b"", &known));
}

#[test]
fn plan_skips_cached_jobs() {
    let jobs = vec![1u64, 2u64, 3u64];
    let cached = vec![true, false, true];
    assert_eq!(plan_jobs(&jobs, &cached), vec![2]);
}

#[test]
fn fully_cached_run_plans_nothing() {
    let jobs = vec![1u64, 2u64, 3u64];
    let cached = vec![true, true, true];
    assert_eq!(plan_jobs(&jobs, &cached), Vec::<u64>::new());
}

#[test]
fn nothing_cached_plans_everything() {
    let jobs = vec![1u64, 2u64];
    let cached = vec![false, false];
    assert_eq!(plan_jobs(&jobs, &cached), vec![1, 2]);
}
