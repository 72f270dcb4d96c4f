//! Tests of the pure extraction logic on constructed pages.

use most_important_deps::extract::{extract, ExtractError};
use most_important_deps::page::{DetailPage, LinkRef, StepRow};

fn link(label: &str, href: Option<&str>) -> LinkRef {
    LinkRef {
        label: label.as_bytes().to_vec(),
        href: href.map(|h| h.as_bytes().to_vec()),
    }
}

fn row(n_cols: usize, status: &str, links: Vec<LinkRef>, store_path: Option<&str>) -> StepRow {
    StepRow {
        n_cols,
        status: status.as_bytes().to_vec(),
        links,
        store_path: store_path.map(|s| s.as_bytes().to_vec()),
    }
}

fn page(arch: Option<&str>, pkg: Option<&str>, steps: Option<Vec<StepRow>>) -> DetailPage {
    DetailPage {
        architecture: arch.map(|a| a.as_bytes().to_vec()),
        package_name: pkg.map(|p| p.as_bytes().to_vec()),
        steps,
    }
}

const STORE_PATH: &str = "/nix/store/aaaaaaaaaaaaaaaaaaaaaaaaaaaaaaaa-abc";

#[test]
fn missing_architecture_is_malformed() {
    let p = page(None, Some("mypkg"), Some(vec![]));
    assert!(matches!(extract(&p, 7), Err(ExtractError::MalformedPage)));
}

#[test]
fn missing_package_name_is_malformed() {
    let p = page(Some("x86_64-linux"), None, Some(vec![]));
    assert!(matches!(extract(&p, 7), Err(ExtractError::MalformedPage)));
}

#[test]
fn missing_step_table_is_malformed() {
    let p = page(Some("x86_64-linux"), Some("mypkg"), None);
    assert!(matches!(extract(&p, 7), Err(ExtractError::MalformedPage)));
}

#[test]
fn zero_usable_steps_is_a_valid_empty_outcome() {
    // A header-like row without columns, a succeeded row, and a failed row
    // whose links were removed by a retry: none is usable, and that is not
    // an error.
    let steps = vec![
        row(0, "", vec![], None),
        row(5, "Succeeded", vec![], Some(STORE_PATH)),
        row(5, "Failed", vec![], Some(STORE_PATH)),
    ];
    let p = page(Some("x86_64-linux"), Some("mypkg"), Some(steps));
    let out = extract(&p, 7).unwrap();
    assert_eq!(out.architecture, b"x86_64-linux".to_vec());
    assert_eq!(out.package_name, b"mypkg".to_vec());
    assert!(out.records.is_empty());
    assert!(out.companion.is_empty());
}

#[test]
fn usable_step_yields_record_and_companion() {
    let steps = vec![row(
        5,
        "Failed",
        vec![link("build 5", Some("https://hydra.nixos.org/build/5"))],
        Some(STORE_PATH),
    )];
    let p = page(Some("x86_64-linux"), Some("mypkg"), Some(steps));
    let out = extract(&p, 7).unwrap();
    assert_eq!(out.records.len(), 1);
    assert_eq!(out.records[0].identity_key, b"abc".to_vec());
    assert_eq!(out.records[0].payload, b"abc;x86_64-linux;5".to_vec());
    assert_eq!(out.companion, b"5;mypkg;7".to_vec());
}

#[test]
fn cached_failure_is_usable() {
    let steps = vec![row(
        5,
        "Failed (cached): Cached failure",
        vec![link("build 9", Some("https://hydra.nixos.org/build/9"))],
        Some(STORE_PATH),
    )];
    let p = page(Some("aarch64-linux"), Some("otherpkg"), Some(steps));
    let out = extract(&p, 8).unwrap();
    assert_eq!(out.records[0].payload, b"abc;aarch64-linux;9".to_vec());
    assert_eq!(out.companion, b"9;otherpkg;8".to_vec());
}

#[test]
fn propagated_build_link_is_preferred_over_log() {
    let steps = vec![row(
        5,
        "Failed",
        vec![
            link("log", Some("https://hydra.nixos.org/build/111/nixlog/1")),
            link("build 5", Some("https://hydra.nixos.org/build/5")),
        ],
        Some(STORE_PATH),
    )];
    let p = page(Some("x86_64-linux"), Some("mypkg"), Some(steps));
    let out = extract(&p, 7).unwrap();
    assert_eq!(out.records[0].payload, b"abc;x86_64-linux;5".to_vec());
}

#[test]
fn log_link_is_used_when_no_build_link_exists() {
    let steps = vec![row(
        5,
        "Failed",
        vec![link("log", Some("https://hydra.nixos.org/build/111/nixlog/1"))],
        Some(STORE_PATH),
    )];
    let p = page(Some("x86_64-linux"), Some("mypkg"), Some(steps));
    let out = extract(&p, 7).unwrap();
    assert_eq!(out.records[0].payload, b"abc;x86_64-linux;111".to_vec());
}

#[test]
fn build_link_without_href_falls_back_to_later_log() {
    let steps = vec![row(
        5,
        "Failed",
        vec![
            link("build 5", None),
            link("log", Some("https://hydra.nixos.org/build/111/nixlog/1")),
        ],
        Some(STORE_PATH),
    )];
    let p = page(Some("x86_64-linux"), Some("mypkg"), Some(steps));
    let out = extract(&p, 7).unwrap();
    assert_eq!(out.records[0].payload, b"abc;x86_64-linux;111".to_vec());
}

#[test]
fn store_path_is_cut_at_first_comma() {
    let two = format!("{STORE_PATH},/nix/store/bbbbbbbbbbbbbbbbbbbbbbbbbbbbbbbb-def");
    let steps = vec![row(
        5,
        "Failed",
        vec![link("build 5", Some("https://hydra.nixos.org/build/5"))],
        Some(&two),
    )];
    let p = page(Some("x86_64-linux"), Some("mypkg"), Some(steps));
    let out = extract(&p, 7).unwrap();
    assert_eq!(out.records[0].identity_key, b"abc".to_vec());
}

#[test]
fn usable_step_without_store_path_is_malformed() {
    let steps = vec![row(
        5,
        "Failed",
        vec![link("build 5", Some("https://hydra.nixos.org/build/5"))],
        None,
    )];
    let p = page(Some("x86_64-linux"), Some("mypkg"), Some(steps));
    assert!(matches!(extract(&p, 7), Err(ExtractError::MalformedPage)));
}

#[test]
fn short_store_path_is_malformed() {
    let steps = vec![row(
        5,
        "Failed",
        vec![link("build 5", Some("https://hydra.nixos.org/build/5"))],
        Some("/nix/store/short"),
    )];
    let p = page(Some("x86_64-linux"), Some("mypkg"), Some(steps));
    assert!(matches!(extract(&p, 7), Err(ExtractError::MalformedPage)));
}

#[test]
fn href_without_build_field_is_malformed() {
    let steps = vec![row(
        5,
        "Failed",
        vec![link("build 5", Some("nowhere"))],
        Some(STORE_PATH),
    )];
    let p = page(Some("x86_64-linux"), Some("mypkg"), Some(steps));
    assert!(matches!(extract(&p, 7), Err(ExtractError::MalformedPage)));
}

#[test]
fn companion_line_comes_from_last_usable_step() {
    let steps = vec![
        row(
            5,
            "Failed",
            vec![link("build 5", Some("https://hydra.nixos.org/build/5"))],
            Some(STORE_PATH),
        ),
        row(
            5,
            "Failed",
            vec![link("build 6", Some("https://hydra.nixos.org/build/6"))],
            Some("/nix/store/cccccccccccccccccccccccccccccccc-xyz"),
        ),
    ];
    let p = page(Some("x86_64-linux"), Some("mypkg"), Some(steps));
    let out = extract(&p, 7).unwrap();
    assert_eq!(out.records.len(), 2);
    assert_eq!(out.companion, b"6;mypkg;7".to_vec());
}
