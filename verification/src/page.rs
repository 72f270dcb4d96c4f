//! The slices of a build detail page that extraction reads.
//!
//! The remote front end serves HTML. The `select` crate does the HTML
//! parsing and the DOM queries; what each query returns is reduced here to
//! plain byte values, so that the extraction logic itself is verified. The
//! queried slices are: the build's architecture, its package name, and the
//! rows of the build-steps table.

use vstd::prelude::*;

use select::document::Document;
use select::predicate::{And, Attr, Class, Name, Predicate};

use crate::bytes::{dec_rep, u64_to_dec, push_all};
use vstd::string::StrSliceExecFns;

verus! {

/// The fixed detail-page URL prefix; a build's page is at this URL
/// followed by the build's decimal identifier.
pub open spec fn detail_url_prefix() -> Seq<u8> {
    seq![
        ('h' as u8), ('t' as u8), ('t' as u8), ('p' as u8), ('s' as u8), (':' as u8),
        ('/' as u8), ('/' as u8), ('h' as u8), ('y' as u8), ('d' as u8), ('r' as u8),
        ('a' as u8), ('.' as u8), ('n' as u8), ('i' as u8), ('x' as u8), ('o' as u8),
        ('s' as u8), ('.' as u8), ('o' as u8), ('r' as u8), ('g' as u8), ('/' as u8),
        ('b' as u8), ('u' as u8), ('i' as u8), ('l' as u8), ('d' as u8), ('/' as u8),
    ]
}

fn detail_url_prefix_bytes() -> (v: Vec<u8>)
    ensures
        v@ == detail_url_prefix(),
{
    let mut v: Vec<u8> = Vec::new();
    v.push('h' as u8);
    v.push('t' as u8);
    v.push('t' as u8);
    v.push('p' as u8);
    v.push('s' as u8);
    v.push(':' as u8);
    v.push('/' as u8);
    v.push('/' as u8);
    v.push('h' as u8);
    v.push('y' as u8);
    v.push('d' as u8);
    v.push('r' as u8);
    v.push('a' as u8);
    v.push('.' as u8);
    v.push('n' as u8);
    v.push('i' as u8);
    v.push('x' as u8);
    v.push('o' as u8);
    v.push('s' as u8);
    v.push('.' as u8);
    v.push('o' as u8);
    v.push('r' as u8);
    v.push('g' as u8);
    v.push('/' as u8);
    v.push('b' as u8);
    v.push('u' as u8);
    v.push('i' as u8);
    v.push('l' as u8);
    v.push('d' as u8);
    v.push('/' as u8);
    proof {
        assert(v@ =~= detail_url_prefix());
    }
    v
}

/// The URL of one build's detail page.
pub fn detail_page_url(build: u64) -> (v: Vec<u8>)
    ensures
        v@ == detail_url_prefix() + dec_rep(build as int),
{
    let mut v = detail_url_prefix_bytes();
    let num = u64_to_dec(build);
    push_all(&mut v, num.as_slice());
    v
}

/// One anchor found in a step row's result column: its text and, if
/// present, its `href` attribute.
pub struct LinkRef {
    pub label: Vec<u8>,
    pub href: Option<Vec<u8>>,
}

/// One row of the build-steps table, reduced to what extraction reads: the
/// number of columns, the text of the result column, the anchors of the
/// result column, and the text of the first `tt` element of the second
/// column (the step's declared artifact path), if any.
pub struct StepRow {
    pub n_cols: usize,
    pub status: Vec<u8>,
    pub links: Vec<LinkRef>,
    pub store_path: Option<Vec<u8>>,
}

/// The slices of one detail page that extraction reads. A `None` field
/// means the corresponding section was not found on the page.
pub struct DetailPage {
    pub architecture: Option<Vec<u8>>,
    pub package_name: Option<Vec<u8>>,
    pub steps: Option<Vec<StepRow>>,
}

/// The text of the first `tt` element under an element of class
/// `info-table`, as the page's architecture. A pure function of the page
/// text; no short statement of HTML parsing exists, so the result only has
/// this name.
pub uninterp spec fn page_architecture(html: Seq<u8>) -> Option<Vec<u8>>;

/// The text of the third `tt` element under an `info-table` inside the
/// element with id `tabs-details`, as the page's package name.
pub uninterp spec fn page_package_name(html: Seq<u8>) -> Option<Vec<u8>>;

/// The rows of the `clickable-rows` table inside the element with id
/// `tabs-buildsteps`, reduced to their column count and the text of their
/// fifth column, with anchors and artifact path left aside; `None` when
/// the page has no such table.
pub uninterp spec fn page_step_shapes(html: Seq<u8>) -> Option<Vec<StepRow>>;

/// For each row of the same table, the text of the first `tt` of its
/// second column; empty when the page has no such table.
pub uninterp spec fn page_step_paths(html: Seq<u8>) -> Vec<Option<Vec<u8>>>;

/// For each row of the same table, the anchors of its fifth column; empty
/// when the page has no such table.
pub uninterp spec fn page_step_links(html: Seq<u8>) -> Vec<Vec<LinkRef>>;

/// The rows of the build-steps table with their anchors and artifact paths
/// attached; `None` when the page has no such table.
pub open spec fn page_step_rows(html: Seq<u8>) -> Option<Seq<StepRow>> {
    match page_step_shapes(html) {
        None => None,
        Some(raw) => Some(
            Seq::new(
                raw@.len(),
                |i: int|
                    StepRow {
                        n_cols: raw@[i].n_cols,
                        status: raw@[i].status,
                        links: if 0 <= i < page_step_links(html)@.len() {
                            page_step_links(html)@[i]
                        } else {
                            vstd::pervasive::arbitrary()
                        },
                        store_path: if 0 <= i < page_step_paths(html)@.len() {
                            page_step_paths(html)@[i]
                        } else {
                            None
                        },
                    },
            ),
        ),
    }
}

/// Relies on `select::document::Document` and the predicates `Class`,
/// `Name` and `Descendant`: returns the text of the first `tt` element
/// under an element of class `info-table`, a pure function of the page
/// text.
#[verifier::external_body]
fn scan_architecture(html: &[u8]) -> (r: Option<Vec<u8>>)
    ensures
        r == page_architecture(html@),
{
    let doc = Document::from(&*String::from_utf8_lossy(html));
    doc.find(Class("info-table").descendant(Name("tt"))).next().map(|n| n.text().into_bytes())
}

/// Relies on `select::document::Document` and the predicates `Attr`,
/// `Class`, `Name` and `Descendant`: returns the text of the third `tt`
/// element under an `info-table` inside the element with id `tabs-details`,
/// a pure function of the page text.
#[verifier::external_body]
fn scan_package_name(html: &[u8]) -> (r: Option<Vec<u8>>)
    ensures
        r == page_package_name(html@),
{
    let doc = Document::from(&*String::from_utf8_lossy(html));
    doc.find(Attr("id", "tabs-details").descendant(Class("info-table").descendant(Name("tt"))))
        .nth(2)
        .map(|n| n.text().into_bytes())
}

/// Relies on `select::document::Document` and the predicates `Attr`, `And`,
/// `Class`, `Name` and `Descendant`, and on `Node::text`: returns, for each
/// `tr` of the `clickable-rows` table inside the element with id
/// `tabs-buildsteps`, its column count and the text of its fifth column,
/// converted one for one; a pure function of the page text.
#[verifier::external_body]
fn scan_step_shapes(html: &[u8]) -> (r: Option<Vec<StepRow>>)
    ensures
        r == page_step_shapes(html@),
{
    let doc = Document::from(&*String::from_utf8_lossy(html));
    let sel = Attr("id", "tabs-buildsteps").descendant(And(Name("table"), Class("clickable-rows")));
    let table = doc.find(sel).next()?;
    let mut rows = Vec::new();
    for row in table.find(Name("tr")) {
        let status = row.find(Name("td")).nth(4).map(|c| c.text().into_bytes()).unwrap_or_default();
        rows.push(StepRow { n_cols: row.find(Name("td")).count(), status, links: Vec::new(), store_path: None });
    }
    Some(rows)
}

/// Relies on the same `select` queries: returns, for each `tr` of the same
/// table, the text of the first `tt` of its second column, converted one
/// for one, so all scans see one row list; a pure function of the page
/// text.
#[verifier::external_body]
fn scan_step_paths(html: &[u8]) -> (r: Vec<Option<Vec<u8>>>)
    ensures
        r == page_step_paths(html@),
        page_step_shapes(html@) is Some ==> r@.len() == page_step_shapes(html@)->0@.len(),
{
    let doc = Document::from(&*String::from_utf8_lossy(html));
    let sel = Attr("id", "tabs-buildsteps").descendant(And(Name("table"), Class("clickable-rows")));
    let table = match doc.find(sel).next() { Some(t) => t, None => return Vec::new() };
    let mut rows = Vec::new();
    for row in table.find(Name("tr")) {
        rows.push(row.find(Name("td")).nth(1).and_then(|c| c.find(Name("tt")).next()).map(|t| t.text().into_bytes()));
    }
    rows
}

/// Builds one anchor's reduction to plain bytes.
fn mk_link(label: &str, href: Option<&str>) -> LinkRef {
    let l = label.as_bytes_vec();
    let h = match href {
        Some(s) => Some(vstd::slice::slice_to_vec(s.as_bytes())),
        None => None,
    };
    LinkRef { label: l, href: h }
}

/// Relies on the same `select` queries, and on `Node::attr`: returns the
/// anchors (text and `href`) of the fifth column of each `tr` of the same
/// table, converted one for one by `mk_link`; a pure function of the page
/// text.
#[verifier::external_body]
fn scan_step_links(html: &[u8]) -> (r: Vec<Vec<LinkRef>>)
    ensures
        r == page_step_links(html@),
        page_step_shapes(html@) is Some ==> r@.len() == page_step_shapes(html@)->0@.len(),
{
    let doc = Document::from(&*String::from_utf8_lossy(html));
    let sel = Attr("id", "tabs-buildsteps").descendant(And(Name("table"), Class("clickable-rows")));
    let Some(table) = doc.find(sel).next() else { return Vec::new() };
    let mut rows = Vec::new();
    for row in table.find(Name("tr")) {
        let col = row.find(Name("td")).nth(4);
        rows.push(col.map_or(Vec::new(), |c| c.find(Name("a")).map(|a| mk_link(&a.text(), a.attr("href"))).collect()));
    }
    rows
}

#[verifier::loop_isolation(false)]
fn attach_row_parts(
    rows: Vec<StepRow>,
    paths: Vec<Option<Vec<u8>>>,
    links: Vec<Vec<LinkRef>>,
    Ghost(h): Ghost<Seq<u8>>,
) -> (out: Vec<StepRow>)
    requires
        page_step_shapes(h) is Some,
        rows == page_step_shapes(h)->0,
        paths == page_step_paths(h),
        links == page_step_links(h),
        paths@.len() == rows@.len(),
        links@.len() == rows@.len(),
    ensures
        page_step_rows(h) is Some,
        out@ == page_step_rows(h)->0,
{
    let ghost rows0 = rows@;
    let ghost paths0 = paths@;
    let ghost links0 = links@;
    let mut rows = rows;
    let mut paths = paths;
    let mut links = links;
    let mut out: Vec<StepRow> = Vec::new();
    let mut i: usize = 0;
    let n = rows.len();
    proof {
        assert(rows0.len() == n);
    }
    while rows.len() > 0
        invariant
            i + rows@.len() == rows0.len(),
            i + paths@.len() == paths0.len(),
            i + links@.len() == links0.len(),
            rows@ == rows0.skip(i as int),
            paths@ == paths0.skip(i as int),
            links@ == links0.skip(i as int),
            out@.len() == i,
            forall|j: int|
                0 <= j < i ==> #[trigger] out@[j] == (StepRow {
                    n_cols: rows0[j].n_cols,
                    status: rows0[j].status,
                    links: links0[j],
                    store_path: paths0[j],
                }),
        decreases rows@.len(),
    {
        let mut r = rows.remove(0);
        let p = paths.remove(0);
        let l = links.remove(0);
        proof {
            assert(rows0.skip(i as int)[0] == rows0[i as int]);
            assert(paths0.skip(i as int)[0] == paths0[i as int]);
            assert(links0.skip(i as int)[0] == links0[i as int]);
            assert(rows0.skip(i as int).skip(1) =~= rows0.skip(i + 1));
            assert(paths0.skip(i as int).skip(1) =~= paths0.skip(i + 1));
            assert(links0.skip(i as int).skip(1) =~= links0.skip(i + 1));
        }
        r.links = l;
        r.store_path = p;
        out.push(r);
        i = i + 1;
    }
    proof {
        assert(out@ =~= page_step_rows(h)->0);
    }
    out
}

/// Reads the queried slices of a detail page.
pub fn read_detail_page(html: &[u8]) -> (p: DetailPage)
    ensures
        p.architecture == page_architecture(html@),
        p.package_name == page_package_name(html@),
        p.steps is Some <==> page_step_rows(html@) is Some,
        p.steps is Some ==> p.steps->0@ == page_step_rows(html@)->0,
{
    let architecture = scan_architecture(html);
    let package_name = scan_package_name(html);
    let steps = match scan_step_shapes(html) {
        None => None,
        Some(rows) => {
            let paths = scan_step_paths(html);
            let links = scan_step_links(html);
            Some(attach_row_parts(rows, paths, links, Ghost(html@)))
        },
    };
    DetailPage { architecture, package_name, steps }
}

} // verus!
