//! Selection of builds to crawl from an upstream per-job cache file.
//!
//! The upstream collaborator writes one line per build, five fields separated
//! by single spaces; the last field is the build's prior outcome status. This
//! module selects the builds whose status equals the fixed sentinel
//! "Dependency failed": those are the builds whose detail pages the pipeline
//! fetches.

use vstd::prelude::*;

use crate::bytes::{
    all_digits, dec_val, find_in, lemma_find_in, find_byte, parse_u64_range, range_eq, NL, SP,
};

verus! {

/// Error for an upstream cache line that does not have the expected shape:
/// fewer than five space-separated fields, or a build identifier field that
/// is not an unsigned decimal number (on a line whose status is the
/// sentinel).
#[derive(Clone, Copy, Debug, PartialEq, Eq, Structural)]
pub enum UpstreamError {
    MalformedLine,
}

/// The sentinel status marking a build whose dependency failed.
pub open spec fn dependency_failed_label() -> Seq<u8> {
    seq![
        ('D' as u8), ('e' as u8), ('p' as u8), ('e' as u8), ('n' as u8), ('d' as u8), ('e' as u8), ('n' as u8), ('c' as u8), ('y' as u8), SP, ('f' as u8), ('a' as u8), ('i' as u8),
        ('l' as u8), ('e' as u8), ('d' as u8),
    ]
}

/// The sentinel as bytes.
pub fn dependency_failed_bytes() -> (v: Vec<u8>)
    ensures
        v@ == dependency_failed_label(),
{
    let mut v: Vec<u8> = Vec::new();
    v.push(('D' as u8));
    v.push(('e' as u8));
    v.push(('p' as u8));
    v.push(('e' as u8));
    v.push(('n' as u8));
    v.push(('d' as u8));
    v.push(('e' as u8));
    v.push(('n' as u8));
    v.push(('c' as u8));
    v.push(('y' as u8));
    v.push(SP);
    v.push(('f' as u8));
    v.push(('a' as u8));
    v.push(('i' as u8));
    v.push(('l' as u8));
    v.push(('e' as u8));
    v.push(('d' as u8));
    proof {
        assert(v@ =~= dependency_failed_label());
    }
    v
}

/// End of the line starting at `pos`: the next newline, or the end of input.
pub open spec fn line_end(s: Seq<u8>, pos: int) -> int {
    match find_in(s, pos, s.len() as int, NL) {
        Some(i) => i,
        None => s.len() as int,
    }
}

/// What one line `s[lo..hi]` contributes.
///
/// An empty line contributes nothing. A line with fewer than five fields is
/// malformed. A line whose fifth field (the remainder after the fourth
/// space) is not the sentinel contributes nothing. Otherwise the second
/// field must be a decimal build identifier, which is contributed.
pub open spec fn line_selected(s: Seq<u8>, lo: int, hi: int) -> Result<Option<u64>, UpstreamError> {
    if lo >= hi {
        Ok(None)
    } else {
        match find_in(s, lo, hi, SP) {
            None => Err(UpstreamError::MalformedLine),
            Some(i1) => match find_in(s, i1 + 1, hi, SP) {
                None => Err(UpstreamError::MalformedLine),
                Some(i2) => match find_in(s, i2 + 1, hi, SP) {
                    None => Err(UpstreamError::MalformedLine),
                    Some(i3) => match find_in(s, i3 + 1, hi, SP) {
                        None => Err(UpstreamError::MalformedLine),
                        Some(i4) => {
                            if s.subrange(i4 + 1, hi) != dependency_failed_label() {
                                Ok(None)
                            } else {
                                let f = s.subrange(i1 + 1, i2);
                                if f.len() > 0 && all_digits(f) && dec_val(f) <= u64::MAX {
                                    Ok(Some(dec_val(f) as u64))
                                } else {
                                    Err(UpstreamError::MalformedLine)
                                }
                            }
                        },
                    },
                },
            },
        }
    }
}

/// The builds selected from all lines from `pos` on, in line order.
pub open spec fn builds_from(s: Seq<u8>, pos: int) -> Result<Seq<u64>, UpstreamError>
    decreases s.len() - pos,
    via builds_from_decreases
{
    if pos >= s.len() || pos < 0 {
        Ok(Seq::empty())
    } else {
        let end = line_end(s, pos);
        let next = if end < s.len() { end + 1 } else { s.len() as int };
        match line_selected(s, pos, end) {
            Err(e) => Err(e),
            Ok(o) => match builds_from(s, next) {
                Err(e) => Err(e),
                Ok(rest) => Ok(
                    match o {
                        Some(b) => seq![b] + rest,
                        None => rest,
                    },
                ),
            },
        }
    }
}

#[via_fn]
proof fn builds_from_decreases(s: Seq<u8>, pos: int) {
    if 0 <= pos < s.len() {
        lemma_find_in(s, pos, s.len() as int, NL);
    }
}

/// Lifts a parse result to its mathematical value.
pub open spec fn upstream_result_view(r: Result<Vec<u64>, UpstreamError>) -> Result<
    Seq<u64>,
    UpstreamError,
> {
    match r {
        Ok(v) => Ok(v@),
        Err(e) => Err(e),
    }
}

/// What one line contributes, executably.
fn line_selected_exec(s: &[u8], lo: usize, hi: usize) -> (r: Result<Option<u64>, UpstreamError>)
    requires
        lo <= hi <= s@.len(),
    ensures
        r == line_selected(s@, lo as int, hi as int),
{
    if lo >= hi {
        return Ok(None);
    }
    let i1 = match find_byte(s, lo, hi, SP) {
        Some(i) => i,
        None => return Err(UpstreamError::MalformedLine),
    };
    let i2 = match find_byte(s, i1 + 1, hi, SP) {
        Some(i) => i,
        None => return Err(UpstreamError::MalformedLine),
    };
    let i3 = match find_byte(s, i2 + 1, hi, SP) {
        Some(i) => i,
        None => return Err(UpstreamError::MalformedLine),
    };
    let i4 = match find_byte(s, i3 + 1, hi, SP) {
        Some(i) => i,
        None => return Err(UpstreamError::MalformedLine),
    };
    let sentinel = dependency_failed_bytes();
    if !range_eq(s, i4 + 1, hi, sentinel.as_slice()) {
        return Ok(None);
    }
    match parse_u64_range(s, i1 + 1, i2) {
        Some(b) => Ok(Some(b)),
        None => Err(UpstreamError::MalformedLine),
    }
}

/// Reads an upstream per-job cache file and returns the identifiers of the
/// builds whose status is the sentinel "Dependency failed", in line order.
///
/// Returns an error exactly when some line is malformed as `line_selected`
/// says; empty lines and lines with other statuses are skipped.
pub fn select_failed_dependency_builds(content: &[u8]) -> (r: Result<Vec<u64>, UpstreamError>)
    ensures
        upstream_result_view(r) == builds_from(content@, 0),
{
    let n = content.len();
    let mut acc: Vec<u64> = Vec::new();
    let mut pos: usize = 0;
    while pos < n
        invariant
            pos <= n == content@.len(),
            builds_from(content@, 0) == (match builds_from(content@, pos as int) {
                Ok(rest) => Ok::<Seq<u64>, UpstreamError>(acc@ + rest),
                Err(e) => Err::<Seq<u64>, UpstreamError>(e),
            }),
        decreases n - pos,
    {
        let end = match find_byte(content, pos, n, NL) {
            Some(i) => i,
            None => n,
        };
        proof {
            assert(end as int == line_end(content@, pos as int));
        }
        let next = if end < n {
            end + 1
        } else {
            n
        };
        let ghost acc0 = acc@;
        let ghost tail = builds_from(content@, next as int);
        proof {
            assert(builds_from(content@, pos as int) == (match line_selected(
                content@,
                pos as int,
                end as int,
            ) {
                Err(e) => Err::<Seq<u64>, UpstreamError>(e),
                Ok(o) => match tail {
                    Err(e) => Err::<Seq<u64>, UpstreamError>(e),
                    Ok(rest) => Ok(
                        match o {
                            Some(b) => seq![b] + rest,
                            None => rest,
                        },
                    ),
                },
            }));
        }
        match line_selected_exec(content, pos, end) {
            Err(e) => {
                return Err(e);
            },
            Ok(Some(b)) => {
                acc.push(b);
                proof {
                    if tail is Ok {
                        assert(acc0 + (seq![b] + tail->Ok_0) =~= acc@ + tail->Ok_0);
                    }
                }
            },
            Ok(None) => {},
        }
        pos = next;
    }
    proof {
        assert(builds_from(content@, pos as int) == Ok::<Seq<u64>, UpstreamError>(Seq::empty()));
        assert(acc@ + Seq::<u64>::empty() =~= acc@);
    }
    Ok(acc)
}

} // verus!
