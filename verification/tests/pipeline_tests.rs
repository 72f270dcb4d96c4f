//! End-to-end scenario: one job, one build whose dependency failed, from
//! upstream status line through page extraction to the rendered cache
//! entry and companion line.

use most_important_deps::accum::JobAccumulator;
use most_important_deps::cache::{cache_entry_name, render_companion, render_records};
use most_important_deps::extract::extract_from_page_text;
use most_important_deps::page::read_detail_page;
use most_important_deps::upstream::select_failed_dependency_builds;

const DETAIL_PAGE: &str = r#"<!DOCTYPE html>
<html>
  <body>
    <div class="info-table">
      <table>
        <tr><th>Platform:</th><td><tt>x86_64-linux</tt></td></tr>
      </table>
    </div>
    <div id="tabs-details">
      <table class="info-table">
        <tr><th>Build ID:</th><td><tt>7</tt></td></tr>
        <tr><th>System:</th><td><tt>x86_64-linux</tt></td></tr>
        <tr><th>Nix name:</th><td><tt>mypkg</tt></td></tr>
      </table>
    </div>
    <div id="tabs-buildsteps">
      <table class="clickable-rows">
        <thead>
          <tr><th>Nr</th><th>What</th><th>Duration</th><th>Machine</th><th>Status</th></tr>
        </thead>
        <tbody>
          <tr>
            <td>2</td>
            <td><tt>/nix/store/aaaaaaaaaaaaaaaaaaaaaaaaaaaaaaaa-abc</tt></td>
            <td>1s</td>
            <td>machine</td>
            <td>Failed: see <a href="https://hydra.nixos.org/build/5">build 5</a></td>
          </tr>
        </tbody>
      </table>
    </div>
  </body>
</html>
"#;

#[test]
fn page_slices_are_read_from_html() {
    let page = read_detail_page(DETAIL_PAGE.as_bytes());
    assert_eq!(page.architecture, Some(b"x86_64-linux".to_vec()));
    assert_eq!(page.package_name, Some(b"mypkg".to_vec()));
    let steps = page.steps.unwrap();
    // The header row and the step row.
    assert_eq!(steps.len(), 2);
    assert_eq!(steps[0].n_cols, 0);
    assert_eq!(steps[1].n_cols, 5);
    assert_eq!(
        steps[1].store_path,
        Some(b"/nix/store/aaaaaaaaaaaaaaaaaaaaaaaaaaaaaaaa-abc".to_vec())
    );
    assert_eq!(steps[1].links.len(), 1);
    assert_eq!(steps[1].links[0].label, b"build 5".to_vec());
    assert_eq!(
        steps[1].links[0].href,
        Some(b"https://hydra.nixos.org/build/5".to_vec())
    );
}

#[test]
fn missing_sections_are_not_found_in_foreign_html() {
    let page = read_detail_page(b"<html><body><p>not a detail page</p></body></html>");
    assert_eq!(page.architecture, None);
    assert_eq!(page.package_name, None);
    assert!(page.steps.is_none());
}

#[test]
fn job_42_build_7_end_to_end() {
    // Upstream says build 7 of job 42 has a failed dependency.
    let upstream = b"mypkg.x86_64-linux 7 mypkg x86_64-linux Dependency failed\n";
    let builds = select_failed_dependency_builds(upstream).unwrap();
    assert_eq!(builds, vec![7]);

    // The detail page for build 7 yields one record.
    let out = extract_from_page_text(DETAIL_PAGE.as_bytes(), builds[0]).unwrap();
    let mut acc = JobAccumulator::new();
    for r in out.records {
        acc.insert(r);
    }
    assert_eq!(render_records(&acc), b"abc;x86_64-linux;5\n".to_vec());
    assert_eq!(render_companion(&out.companion), b"5;mypkg;7\n".to_vec());
    assert_eq!(cache_entry_name(42), b"42.cache".to_vec());
}

#[test]
fn repeated_crawl_attempts_leave_one_record() {
    // A restarted attempt extracts the same failure again; the accumulator
    // collapses the duplicate identity key.
    let mut acc = JobAccumulator::new();
    let first = extract_from_page_text(DETAIL_PAGE.as_bytes(), 7).unwrap();
    for r in first.records {
        acc.insert(r);
    }
    let second = extract_from_page_text(DETAIL_PAGE.as_bytes(), 7).unwrap();
    for r in second.records {
        acc.insert(r);
    }
    assert_eq!(render_records(&acc), b"abc;x86_64-linux;5\n".to_vec());
}
