//! Tests of upstream cache-file parsing and build selection.

use most_important_deps::upstream::{select_failed_dependency_builds, UpstreamError};

#[test]
fn selects_builds_with_failed_dependency_status() {
    let content = b"attr 7 mypkg x86_64-linux Dependency failed\n";
    assert_eq!(select_failed_dependency_builds(content).unwrap(), vec![7]);
}

#[test]
fn other_statuses_are_skipped() {
    let content = b"attr1 1 p1 x86_64-linux Succeeded\n\
                    attr2 2 p2 x86_64-linux Dependency failed\n\
                    attr3 3 p3 x86_64-linux Build failed\n\
                    attr4 4 p4 aarch64-linux Dependency failed\n";
    assert_eq!(select_failed_dependency_builds(content).unwrap(), vec![2, 4]);
}

#[test]
fn empty_lines_are_skipped() {
    let content = b"\n\nattr 9 p x86_64-linux Dependency failed\n\n";
    assert_eq!(select_failed_dependency_builds(content).unwrap(), vec![9]);
}

#[test]
fn empty_input_selects_nothing() {
    let content = b"";
    assert_eq!(select_failed_dependency_builds(content).unwrap(), Vec::<u64>::new());
}

#[test]
fn line_with_too_few_fields_is_malformed() {
    let content = b"attr 7 mypkg x86_64-linux\n";
    assert!(matches!(
        select_failed_dependency_builds(content),
        Err(UpstreamError::MalformedLine)
    ));
}

#[test]
fn non_numeric_build_on_sentinel_line_is_malformed() {
    let content = b"attr seven mypkg x86_64-linux Dependency failed\n";
    assert!(matches!(
        select_failed_dependency_builds(content),
        Err(UpstreamError::MalformedLine)
    ));
}

#[test]
fn non_numeric_build_on_other_line_is_ignored() {
    let content = b"attr seven mypkg x86_64-linux Succeeded\n\
                    attr 8 mypkg x86_64-linux Dependency failed\n";
    assert_eq!(select_failed_dependency_builds(content).unwrap(), vec![8]);
}

#[test]
fn status_with_extra_words_is_not_the_sentinel() {
    let content = b"attr 7 mypkg x86_64-linux Dependency failed again\n";
    assert_eq!(select_failed_dependency_builds(content).unwrap(), Vec::<u64>::new());
}

#[test]
fn last_line_without_newline_is_read() {
    let content = b"attr 7 mypkg x86_64-linux Dependency failed";
    assert_eq!(select_failed_dependency_builds(content).unwrap(), vec![7]);
}

#[test]
fn build_id_too_large_for_u64_is_malformed() {
    let content = b"attr 99999999999999999999 mypkg x86_64-linux Dependency failed\n";
    assert!(matches!(
        select_failed_dependency_builds(content),
        Err(UpstreamError::MalformedLine)
    ));
}
