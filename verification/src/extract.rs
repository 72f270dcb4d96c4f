//! Extraction of failing-dependency records from one detail page.
//!
//! A page describes one build whose dependency failed. Extraction reads the
//! page's architecture and package name, then walks the build-steps table.
//! A step row is a candidate when it has exactly five columns and its
//! result column mentions a failure (or a cached failure). For a candidate
//! the one outbound reference that explains the failure is chosen from the
//! result column's anchors: a reference labelled as a propagated build
//! (label starting with "build ") is preferred over a generic log link
//! (label "log"), and a candidate with neither is unusable and skipped —
//! that happens when a step was later retried and succeeded. From a usable
//! step the record's identity key is the step's declared artifact path up
//! to the first comma, with the fixed-length store prefix stripped; the
//! payload appends the architecture and the referenced build's identifier.

use vstd::prelude::*;

use crate::bytes::{
    contains_seq, contains_bytes, starts_with_seq, starts_with_bytes, find_in, find_byte,
    dec_rep, u64_to_dec, push_all, copy_bytes, bytes_eq, COMMA, SEMI, SLASH,
};
use crate::page::{DetailPage, LinkRef, StepRow, page_architecture, page_package_name,
    page_step_rows, read_detail_page};

verus! {

/// Error of extraction: the page does not have the expected schema (the
/// architecture section, the package-name section or the failing-step table
/// is missing, or a usable failing step lacks a well-formed artifact path
/// or referenced build). Reported, never swallowed: it means the remote
/// page schema changed.
#[derive(Clone, Copy, Debug, PartialEq, Eq, Structural)]
pub enum ExtractError {
    MalformedPage,
}

/// Length of the fixed artifact-store prefix that identity keys strip.
pub const STORE_PREFIX_LEN: usize = 44;

/// The status word of a failed step.
pub open spec fn failed_label() -> Seq<u8> {
    seq![('F' as u8), ('a' as u8), ('i' as u8), ('l' as u8), ('e' as u8), ('d' as u8)]
}

/// The status word of a cached failed step.
pub open spec fn cached_label() -> Seq<u8> {
    seq![('C' as u8), ('a' as u8), ('c' as u8), ('h' as u8), ('e' as u8), ('d' as u8)]
}

/// The label of a generic log link.
pub open spec fn log_label() -> Seq<u8> {
    seq![('l' as u8), ('o' as u8), ('g' as u8)]
}

/// The label prefix of a propagated build link.
pub open spec fn build_label_prefix() -> Seq<u8> {
    seq![('b' as u8), ('u' as u8), ('i' as u8), ('l' as u8), ('d' as u8), 32u8]
}

fn failed_bytes() -> (v: Vec<u8>)
    ensures
        v@ == failed_label(),
{
    let mut v: Vec<u8> = Vec::new();
    v.push('F' as u8);
    v.push('a' as u8);
    v.push('i' as u8);
    v.push('l' as u8);
    v.push('e' as u8);
    v.push('d' as u8);
    proof {
        assert(v@ =~= failed_label());
    }
    v
}

fn cached_bytes() -> (v: Vec<u8>)
    ensures
        v@ == cached_label(),
{
    let mut v: Vec<u8> = Vec::new();
    v.push('C' as u8);
    v.push('a' as u8);
    v.push('c' as u8);
    v.push('h' as u8);
    v.push('e' as u8);
    v.push('d' as u8);
    proof {
        assert(v@ =~= cached_label());
    }
    v
}

fn log_bytes() -> (v: Vec<u8>)
    ensures
        v@ == log_label(),
{
    let mut v: Vec<u8> = Vec::new();
    v.push('l' as u8);
    v.push('o' as u8);
    v.push('g' as u8);
    proof {
        assert(v@ =~= log_label());
    }
    v
}

fn build_prefix_bytes() -> (v: Vec<u8>)
    ensures
        v@ == build_label_prefix(),
{
    let mut v: Vec<u8> = Vec::new();
    v.push('b' as u8);
    v.push('u' as u8);
    v.push('i' as u8);
    v.push('l' as u8);
    v.push('d' as u8);
    v.push(32u8);
    proof {
        assert(v@ =~= build_label_prefix());
    }
    v
}

/// The mathematical value of one extracted record.
pub struct RecordModel {
    pub identity_key: Seq<u8>,
    pub payload: Seq<u8>,
}

/// One record extracted from a usable failing step: a content-derived
/// identity key, stable across retries of the same underlying failure, and
/// an opaque payload line.
pub struct ExtractedRecord {
    pub identity_key: Vec<u8>,
    pub payload: Vec<u8>,
}

impl View for ExtractedRecord {
    type V = RecordModel;

    open spec fn view(&self) -> RecordModel {
        RecordModel { identity_key: self.identity_key@, payload: self.payload@ }
    }
}

/// The mathematical value of an extraction outcome.
pub struct OutcomeModel {
    pub architecture: Seq<u8>,
    pub package_name: Seq<u8>,
    pub records: Seq<RecordModel>,
    pub companion: Seq<u8>,
}

/// The outcome of extracting one page: the build's architecture and package
/// name, the records of its usable failing steps in row order, and the
/// companion summary line (of the last usable step; empty when there is
/// none).
pub struct ExtractionOutcome {
    pub architecture: Vec<u8>,
    pub package_name: Vec<u8>,
    pub records: Vec<ExtractedRecord>,
    pub companion: Vec<u8>,
}

impl View for ExtractionOutcome {
    type V = OutcomeModel;

    open spec fn view(&self) -> OutcomeModel {
        OutcomeModel {
            architecture: self.architecture@,
            package_name: self.package_name@,
            records: self.records@.map_values(|r: ExtractedRecord| r@),
            companion: self.companion@,
        }
    }
}

/// The `href` of a link, as a byte string.
pub open spec fn link_href_view(l: LinkRef) -> Option<Seq<u8>> {
    match l.href {
        Some(h) => Some(h@),
        None => None,
    }
}

/// The fold that chooses a step's one outbound reference, scanning the
/// anchors left to right: a log link is taken only while nothing is chosen
/// yet, and a propagated build link always replaces the choice.
pub open spec fn chosen_link_acc(links: Seq<LinkRef>, acc: Option<Seq<u8>>) -> Option<Seq<u8>>
    decreases links.len(),
{
    if links.len() == 0 {
        acc
    } else {
        let l = links[0];
        let acc1 = if acc is None && l.label@ == log_label() {
            link_href_view(l)
        } else {
            acc
        };
        let acc2 = if starts_with_seq(l.label@, build_label_prefix()) {
            link_href_view(l)
        } else {
            acc1
        };
        chosen_link_acc(links.drop_first(), acc2)
    }
}

/// The one outbound reference of a step's result column, if any.
pub open spec fn chosen_link(links: Seq<LinkRef>) -> Option<Seq<u8>> {
    chosen_link_acc(links, None)
}

fn chosen_link_exec(links: &Vec<LinkRef>) -> (r: Option<&Vec<u8>>)
    ensures
        match r {
            Some(h) => chosen_link(links@) == Some(h@),
            None => chosen_link(links@) is None,
        },
{
    let mut acc: Option<&Vec<u8>> = None;
    let mut i: usize = 0;
    proof {
        assert(links@.skip(0) =~= links@);
    }
    while i < links.len()
        invariant
            i <= links@.len(),
            chosen_link_acc(
                links@.skip(i as int),
                match acc {
                    Some(h) => Some(h@),
                    None => None::<Seq<u8>>,
                },
            ) == chosen_link(links@),
        decreases links@.len() - i,
    {
        let l = &links[i];
        proof {
            assert(links@.skip(i as int)[0] == links@[i as int]);
            assert(links@.skip(i as int).drop_first() =~= links@.skip(i + 1));
        }
        let acc_is_none = match acc {
            Some(_) => false,
            None => true,
        };
        let mut new_acc = acc;
        let log = log_bytes();
        if acc_is_none && bytes_eq(l.label.as_slice(), log.as_slice()) {
            new_acc = match &l.href {
                Some(h) => Some(h),
                None => None,
            };
        }
        let bp = build_prefix_bytes();
        if starts_with_bytes(l.label.as_slice(), bp.as_slice()) {
            new_acc = match &l.href {
                Some(h) => Some(h),
                None => None,
            };
        }
        acc = new_acc;
        i = i + 1;
    }
    proof {
        assert(links@.skip(links@.len() as int) =~= Seq::<LinkRef>::empty());
    }
    acc
}

/// End of the first comma-separated part of `s`.
pub open spec fn comma_end(s: Seq<u8>) -> int {
    match find_in(s, 0, s.len() as int, COMMA) {
        Some(i) => i,
        None => s.len() as int,
    }
}

/// The `k`-th (from zero) `sep`-separated field of `s` from `pos` on, if
/// there are that many fields.
pub open spec fn nth_field(s: Seq<u8>, pos: int, k: nat, sep: u8) -> Option<Seq<u8>>
    decreases k,
{
    if pos < 0 || pos > s.len() {
        None
    } else {
        let end = match find_in(s, pos, s.len() as int, sep) {
            Some(i) => i,
            None => s.len() as int,
        };
        if k == 0 {
            Some(s.subrange(pos, end))
        } else if end >= s.len() {
            None
        } else {
            nth_field(s, end + 1, (k - 1) as nat, sep)
        }
    }
}

fn nth_field_exec(s: &[u8], pos: usize, k: usize, sep: u8) -> (r: Option<Vec<u8>>)
    requires
        pos <= s@.len(),
    ensures
        match r {
            Some(v) => nth_field(s@, pos as int, k as nat, sep) == Some(v@),
            None => nth_field(s@, pos as int, k as nat, sep) is None,
        },
    decreases k,
{
    let end = match find_byte(s, pos, s.len(), sep) {
        Some(i) => i,
        None => s.len(),
    };
    if k == 0 {
        let mut v: Vec<u8> = Vec::new();
        push_all(&mut v, vstd::slice::slice_subrange(s, pos, end));
        Some(v)
    } else if end >= s.len() {
        None
    } else {
        nth_field_exec(s, end + 1, k - 1, sep)
    }
}

/// What one step row contributes to extraction.
pub enum RowAction {
    /// Not a candidate, or a candidate with no usable reference.
    Skip,
    /// A usable step whose artifact path or reference is not well formed.
    Malformed,
    /// A usable step's record and companion summary line.
    Use(RecordModel, Seq<u8>),
}

/// Whether a row is a candidate: five columns, and a result column that
/// mentions a (possibly cached) failure.
pub open spec fn row_is_candidate(row: StepRow) -> bool {
    row.n_cols == 5 && (contains_seq(row.status@, failed_label()) || contains_seq(
        row.status@,
        cached_label(),
    ))
}

/// What one row contributes: nothing, an error, or one record plus the
/// row's companion summary line `dep;package;build`.
pub open spec fn row_action(row: StepRow, arch: Seq<u8>, pkg: Seq<u8>, build_id: u64) -> RowAction {
    if !row_is_candidate(row) {
        RowAction::Skip
    } else {
        match chosen_link(row.links@) {
            None => RowAction::Skip,
            Some(href) => match row.store_path {
                None => RowAction::Malformed,
                Some(sp) => {
                    let first = sp@.subrange(0, comma_end(sp@));
                    if first.len() < STORE_PREFIX_LEN {
                        RowAction::Malformed
                    } else {
                        let key = first.skip(STORE_PREFIX_LEN as int);
                        match nth_field(href, 0, 4, SLASH) {
                            None => RowAction::Malformed,
                            Some(dep) => RowAction::Use(
                                RecordModel {
                                    identity_key: key,
                                    payload: key + seq![SEMI] + arch + seq![SEMI] + dep,
                                },
                                dep + seq![SEMI] + pkg + seq![SEMI] + dec_rep(build_id as int),
                            ),
                        }
                    }
                },
            },
        }
    }
}

/// The records and companion line of the rows from `i` on: records in row
/// order, companion line of the last usable row.
pub open spec fn steps_from(
    rows: Seq<StepRow>,
    i: int,
    arch: Seq<u8>,
    pkg: Seq<u8>,
    build_id: u64,
) -> Result<(Seq<RecordModel>, Seq<u8>), ExtractError>
    decreases rows.len() - i,
{
    if i < 0 || i >= rows.len() {
        Ok((Seq::empty(), Seq::empty()))
    } else {
        match row_action(rows[i], arch, pkg, build_id) {
            RowAction::Malformed => Err(ExtractError::MalformedPage),
            RowAction::Skip => steps_from(rows, i + 1, arch, pkg, build_id),
            RowAction::Use(rec, comp) => match steps_from(rows, i + 1, arch, pkg, build_id) {
                Err(e) => Err(e),
                Ok(rest) => Ok(
                    (
                        seq![rec] + rest.0,
                        if rest.1.len() > 0 {
                            rest.1
                        } else {
                            comp
                        },
                    ),
                ),
            },
        }
    }
}

/// What `extract` returns on a page, as a mathematical value.
pub open spec fn spec_extract_page(page: DetailPage, build_id: u64) -> Result<
    OutcomeModel,
    ExtractError,
> {
    match page.architecture {
        None => Err(ExtractError::MalformedPage),
        Some(arch) => match page.package_name {
            None => Err(ExtractError::MalformedPage),
            Some(pkg) => match page.steps {
                None => Err(ExtractError::MalformedPage),
                Some(rows) => match steps_from(rows@, 0, arch@, pkg@, build_id) {
                    Err(e) => Err(e),
                    Ok(rc) => Ok(
                        OutcomeModel {
                            architecture: arch@,
                            package_name: pkg@,
                            records: rc.0,
                            companion: rc.1,
                        },
                    ),
                },
            },
        },
    }
}

/// What `extract_from_page_text` returns on raw page text.
pub open spec fn spec_extract_html(html: Seq<u8>, build_id: u64) -> Result<
    OutcomeModel,
    ExtractError,
> {
    match page_architecture(html) {
        None => Err(ExtractError::MalformedPage),
        Some(arch) => match page_package_name(html) {
            None => Err(ExtractError::MalformedPage),
            Some(pkg) => match page_step_rows(html) {
                None => Err(ExtractError::MalformedPage),
                Some(rows) => match steps_from(rows, 0, arch@, pkg@, build_id) {
                    Err(e) => Err(e),
                    Ok(rc) => Ok(
                        OutcomeModel {
                            architecture: arch@,
                            package_name: pkg@,
                            records: rc.0,
                            companion: rc.1,
                        },
                    ),
                },
            },
        },
    }
}

/// Lifts an extraction result to its mathematical value.
pub open spec fn outcome_result_view(r: Result<ExtractionOutcome, ExtractError>) -> Result<
    OutcomeModel,
    ExtractError,
> {
    match r {
        Ok(o) => Ok(o@),
        Err(e) => Err(e),
    }
}

enum RowStep {
    Skip,
    Malformed,
    Use(ExtractedRecord, Vec<u8>),
}

fn process_row(row: &StepRow, arch: &Vec<u8>, pkg: &Vec<u8>, build_id: u64) -> (r: RowStep)
    ensures
        match r {
            RowStep::Skip => row_action(*row, arch@, pkg@, build_id) is Skip,
            RowStep::Malformed => row_action(*row, arch@, pkg@, build_id) is Malformed,
            RowStep::Use(rec, comp) => row_action(*row, arch@, pkg@, build_id) == RowAction::Use(
                rec@,
                comp@,
            ),
        },
{
    if row.n_cols != 5 {
        return RowStep::Skip;
    }
    let failed = failed_bytes();
    let cached = cached_bytes();
    if !contains_bytes(row.status.as_slice(), failed.as_slice()) && !contains_bytes(
        row.status.as_slice(),
        cached.as_slice(),
    ) {
        return RowStep::Skip;
    }
    let href = match chosen_link_exec(&row.links) {
        Some(h) => h,
        None => return RowStep::Skip,
    };
    let sp = match &row.store_path {
        Some(sp) => sp,
        None => return RowStep::Malformed,
    };
    let ce = match find_byte(sp.as_slice(), 0, sp.len(), COMMA) {
        Some(i) => i,
        None => sp.len(),
    };
    proof {
        assert(ce as int == comma_end(sp@));
        assert(sp@.subrange(0, ce as int).len() == ce as int);
    }
    if ce < STORE_PREFIX_LEN {
        return RowStep::Malformed;
    }
    let key = copy_bytes(vstd::slice::slice_subrange(sp.as_slice(), STORE_PREFIX_LEN, ce));
    proof {
        assert(key@ =~= sp@.subrange(0, ce as int).skip(STORE_PREFIX_LEN as int));
    }
    let dep = match nth_field_exec(href.as_slice(), 0, 4, SLASH) {
        Some(d) => d,
        None => return RowStep::Malformed,
    };
    let mut payload: Vec<u8> = Vec::new();
    push_all(&mut payload, key.as_slice());
    payload.push(SEMI);
    push_all(&mut payload, arch.as_slice());
    payload.push(SEMI);
    push_all(&mut payload, dep.as_slice());
    let mut comp: Vec<u8> = Vec::new();
    push_all(&mut comp, dep.as_slice());
    comp.push(SEMI);
    push_all(&mut comp, pkg.as_slice());
    comp.push(SEMI);
    let num = u64_to_dec(build_id);
    push_all(&mut comp, num.as_slice());
    proof {
        assert(payload@ =~= key@ + seq![SEMI] + arch@ + seq![SEMI] + dep@);
        assert(comp@ =~= dep@ + seq![SEMI] + pkg@ + seq![SEMI] + dec_rep(build_id as int));
    }
    RowStep::Use(ExtractedRecord { identity_key: key, payload }, comp)
}

/// Extracts the failing-dependency records of one detail page.
///
/// Returns `MalformedPage` exactly when the architecture section, the
/// package-name section or the failing-step table is missing, or a usable
/// failing step has no artifact path, an artifact path shorter than the
/// fixed store prefix, or a reference without a build identifier field. A
/// page whose table yields zero usable steps is a valid outcome with no
/// records.
#[verifier::loop_isolation(false)]
pub fn extract(page: &DetailPage, build_id: u64) -> (r: Result<ExtractionOutcome, ExtractError>)
    ensures
        outcome_result_view(r) == spec_extract_page(*page, build_id),
{
    let arch = match &page.architecture {
        Some(a) => a,
        None => return Err(ExtractError::MalformedPage),
    };
    let pkg = match &page.package_name {
        Some(p) => p,
        None => return Err(ExtractError::MalformedPage),
    };
    let rows = match &page.steps {
        Some(r) => r,
        None => return Err(ExtractError::MalformedPage),
    };
    let mut records: Vec<ExtractedRecord> = Vec::new();
    let mut companion: Vec<u8> = Vec::new();
    let mut i: usize = 0;
    proof {
        let s0 = steps_from(rows@, 0, arch@, pkg@, build_id);
        let emptyrecs = records@.map_values(|r: ExtractedRecord| r@);
        assert(emptyrecs =~= Seq::<RecordModel>::empty());
        if s0 is Ok {
            let rest = s0->Ok_0;
            assert(emptyrecs + rest.0 =~= rest.0);
            if rest.1.len() == 0 {
                assert(companion@ =~= rest.1);
            }
            assert((
                emptyrecs + rest.0,
                if rest.1.len() > 0 {
                    rest.1
                } else {
                    companion@
                },
            ) == rest);
        }
    }
    while i < rows.len()
        invariant
            i <= rows@.len(),
            steps_from(rows@, 0, arch@, pkg@, build_id) == (match steps_from(
                rows@,
                i as int,
                arch@,
                pkg@,
                build_id,
            ) {
                Err(e) => Err::<(Seq<RecordModel>, Seq<u8>), ExtractError>(e),
                Ok(rest) => Ok(
                    (
                        records@.map_values(|r: ExtractedRecord| r@) + rest.0,
                        if rest.1.len() > 0 {
                            rest.1
                        } else {
                            companion@
                        },
                    ),
                ),
            }),
        decreases rows@.len() - i,
    {
        let row = &rows[i];
        let ghost tail = steps_from(rows@, i + 1, arch@, pkg@, build_id);
        match process_row(row, arch, pkg, build_id) {
            RowStep::Malformed => {
                proof {
                    assert(steps_from(rows@, i as int, arch@, pkg@, build_id) == Err::<
                        (Seq<RecordModel>, Seq<u8>),
                        ExtractError,
                    >(ExtractError::MalformedPage));
                    assert(steps_from(rows@, 0, arch@, pkg@, build_id) == Err::<
                        (Seq<RecordModel>, Seq<u8>),
                        ExtractError,
                    >(ExtractError::MalformedPage));
                    assert(page.architecture is Some && page.package_name is Some && page.steps
                        is Some);
                    assert(arch@ == page.architecture->0@);
                    assert(pkg@ == page.package_name->0@);
                    assert(rows@ == page.steps->0@);
                    assert(spec_extract_page(*page, build_id) == Err::<OutcomeModel, ExtractError>(
                        ExtractError::MalformedPage,
                    ));
                }
                return Err(ExtractError::MalformedPage);
            },
            RowStep::Skip => {},
            RowStep::Use(rec, comp) => {
                let ghost recs0 = records@;
                records.push(rec);
                companion = comp;
                proof {
                    assert(records@.map_values(|r: ExtractedRecord| r@) =~= recs0.map_values(
                        |r: ExtractedRecord| r@,
                    ).push(rec@));
                    if tail is Ok {
                        let rest = tail->Ok_0;
                        assert(recs0.map_values(|r: ExtractedRecord| r@) + (seq![rec@] + rest.0)
                            =~= records@.map_values(|r: ExtractedRecord| r@) + rest.0);
                    }
                }
            },
        }
        i = i + 1;
    }
    proof {
        assert(steps_from(rows@, rows@.len() as int, arch@, pkg@, build_id) == Ok::<
            (Seq<RecordModel>, Seq<u8>),
            ExtractError,
        >((Seq::empty(), Seq::empty())));
        assert(records@.map_values(|r: ExtractedRecord| r@) + Seq::<RecordModel>::empty()
            =~= records@.map_values(|r: ExtractedRecord| r@));
    }
    let architecture = copy_bytes(arch.as_slice());
    let package_name = copy_bytes(pkg.as_slice());
    Ok(ExtractionOutcome { architecture, package_name, records, companion })
}

proof fn lemma_all_skip_steps(rows: Seq<StepRow>, i: int, arch: Seq<u8>, pkg: Seq<u8>, build_id: u64)
    requires
        forall|j: int| 0 <= j < rows.len() ==> row_action(#[trigger] rows[j], arch, pkg, build_id)
            is Skip,
    ensures
        steps_from(rows, i, arch, pkg, build_id) == Ok::<(Seq<RecordModel>, Seq<u8>), ExtractError>(
            (Seq::empty(), Seq::empty()),
        ),
    decreases rows.len() - i,
{
    if 0 <= i < rows.len() {
        lemma_all_skip_steps(rows, i + 1, arch, pkg, build_id);
    }
}

/// Law: a page whose sections are all present and whose step rows yield no
/// usable failing step extracts to a valid empty outcome, not an error.
pub proof fn lemma_no_usable_steps_is_ok(page: DetailPage, build_id: u64)
    requires
        page.architecture is Some,
        page.package_name is Some,
        page.steps is Some,
        forall|i: int|
            0 <= i < page.steps->0@.len() ==> row_action(
                #[trigger] page.steps->0@[i],
                page.architecture->0@,
                page.package_name->0@,
                build_id,
            ) is Skip,
    ensures
        spec_extract_page(page, build_id) == Ok::<OutcomeModel, ExtractError>(
            OutcomeModel {
                architecture: page.architecture->0@,
                package_name: page.package_name->0@,
                records: Seq::empty(),
                companion: Seq::empty(),
            },
        ),
{
    lemma_all_skip_steps(
        page.steps->0@,
        0,
        page.architecture->0@,
        page.package_name->0@,
        build_id,
    );
}

/// Law: a page missing the architecture section, the package-name section
/// or the failing-step table is reported as malformed, never silently
/// swallowed.
pub proof fn lemma_missing_section_is_malformed(page: DetailPage, build_id: u64)
    requires
        page.architecture is None || page.package_name is None || page.steps is None,
    ensures
        spec_extract_page(page, build_id) == Err::<OutcomeModel, ExtractError>(
            ExtractError::MalformedPage,
        ),
{
}

/// Reads one detail page's text and extracts its records.
pub fn extract_from_page_text(html: &[u8], build_id: u64) -> (r: Result<
    ExtractionOutcome,
    ExtractError,
>)
    ensures
        outcome_result_view(r) == spec_extract_html(html@, build_id),
{
    let page = read_detail_page(html);
    let r = extract(&page, build_id);
    proof {
        if page.architecture is Some && page.package_name is Some && page.steps is Some {
            assert(page.steps->0@ == page_step_rows(html@)->0);
        }
        assert(outcome_result_view(r) == spec_extract_html(html@, build_id));
    }
    r
}

} // verus!
