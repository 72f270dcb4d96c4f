//! Byte-string primitives: searching, comparison, and decimal numerals.
//!
//! All page content and cache file content is handled as raw bytes, so the
//! parsing and rendering logic below is stated over `Seq<u8>`.

use vstd::prelude::*;

verus! {

/// ASCII space.
pub const SP: u8 = 32;

/// ASCII line feed.
pub const NL: u8 = 10;

/// ASCII semicolon, the output field separator.
pub const SEMI: u8 = 59;

/// ASCII comma.
pub const COMMA: u8 = 44;

/// ASCII slash.
pub const SLASH: u8 = 47;

/// First index of `b` in `s` within `[pos, hi)`, if any.
pub open spec fn find_in(s: Seq<u8>, pos: int, hi: int, b: u8) -> Option<int>
    decreases hi - pos,
{
    if pos < 0 || pos >= hi || hi > s.len() {
        None
    } else if s[pos] == b {
        Some(pos)
    } else {
        find_in(s, pos + 1, hi, b)
    }
}

/// Characterization of `find_in`: the result is the first occurrence.
pub proof fn lemma_find_in(s: Seq<u8>, pos: int, hi: int, b: u8)
    requires
        0 <= pos <= hi <= s.len(),
    ensures
        match find_in(s, pos, hi, b) {
            Some(i) => pos <= i < hi && s[i] == b && forall|j: int| pos <= j < i ==> s[j] != b,
            None => forall|j: int| pos <= j < hi ==> s[j] != b,
        },
    decreases hi - pos,
{
    if pos < hi {
        lemma_find_in(s, pos + 1, hi, b);
    }
}

/// Converse characterization: a first occurrence determines `find_in`.
pub proof fn lemma_find_in_some(s: Seq<u8>, pos: int, hi: int, b: u8, i: int)
    requires
        0 <= pos <= hi <= s.len(),
        pos <= i < hi,
        s[i] == b,
        forall|j: int| pos <= j < i ==> s[j] != b,
    ensures
        find_in(s, pos, hi, b) == Some(i),
    decreases hi - pos,
{
    if pos < i {
        lemma_find_in_some(s, pos + 1, hi, b, i);
    }
}

/// First occurrence of `b` in `s[pos..hi]`, scanning forward.
pub fn find_byte(s: &[u8], pos: usize, hi: usize, b: u8) -> (r: Option<usize>)
    requires
        pos <= hi <= s@.len(),
    ensures
        match r {
            Some(i) => pos <= i < hi && find_in(s@, pos as int, hi as int, b) == Some(i as int),
            None => find_in(s@, pos as int, hi as int, b) is None,
        },
{
    let mut i: usize = pos;
    while i < hi
        invariant
            pos <= i <= hi <= s@.len(),
            forall|j: int| pos <= j < i ==> s@[j] != b,
        decreases hi - i,
    {
        if s[i] == b {
            proof {
                lemma_find_in_some(s@, pos as int, hi as int, b, i as int);
            }
            return Some(i);
        }
        i = i + 1;
    }
    proof {
        lemma_find_in(s@, pos as int, hi as int, b);
        if find_in(s@, pos as int, hi as int, b) is Some {
            let w = find_in(s@, pos as int, hi as int, b)->0;
            assert(s@[w] == b);
        }
    }
    None
}

/// Whether `s[lo..hi]` equals `t` as a whole.
pub fn range_eq(s: &[u8], lo: usize, hi: usize, t: &[u8]) -> (r: bool)
    requires
        lo <= hi <= s@.len(),
    ensures
        r <==> s@.subrange(lo as int, hi as int) == t@,
{
    if hi - lo != t.len() {
        proof {
            assert(s@.subrange(lo as int, hi as int).len() == hi - lo);
        }
        return false;
    }
    let mut i: usize = 0;
    while i < t.len()
        invariant
            lo + t@.len() == hi,
            hi <= s@.len(),
            i <= t@.len(),
            forall|j: int| 0 <= j < i ==> s@[lo + j] == t@[j],
        decreases t@.len() - i,
    {
        if s[lo + i] != t[i] {
            proof {
                assert(s@.subrange(lo as int, hi as int)[i as int] == s@[lo + i]);
            }
            return false;
        }
        i = i + 1;
    }
    proof {
        assert(s@.subrange(lo as int, hi as int) =~= t@);
    }
    true
}

/// Whether two byte strings are equal.
pub fn bytes_eq(a: &[u8], b: &[u8]) -> (r: bool)
    ensures
        r <==> a@ == b@,
{
    let r = range_eq(a, 0, a.len(), b);
    proof {
        assert(a@.subrange(0, a@.len() as int) =~= a@);
    }
    r
}

/// An owned copy of a byte string.
pub fn copy_bytes(s: &[u8]) -> (v: Vec<u8>)
    ensures
        v@ == s@,
{
    let mut v: Vec<u8> = Vec::new();
    push_all(&mut v, s);
    v
}

/// Whether `n` occurs as a contiguous run somewhere in `h`.
pub open spec fn contains_seq(h: Seq<u8>, n: Seq<u8>) -> bool {
    exists|i: int| 0 <= i && i + n.len() <= h.len() && #[trigger] h.subrange(i, i + n.len()) == n
}

/// Substring search by scanning every starting offset.
pub fn contains_bytes(h: &[u8], n: &[u8]) -> (r: bool)
    ensures
        r == contains_seq(h@, n@),
{
    if n.len() > h.len() {
        return false;
    }
    if n.len() == 0 {
        proof {
            assert(h@.subrange(0, 0 + n@.len() as int) =~= n@);
        }
        return true;
    }
    let mut i: usize = 0;
    while i <= h.len() - n.len()
        invariant
            0 < n@.len() <= h@.len(),
            i <= h@.len() - n@.len() + 1,
            forall|j: int| 0 <= j < i ==> #[trigger] h@.subrange(j, j + n@.len()) != n@,
        decreases h@.len() - n@.len() - i + 1,
    {
        if range_eq(h, i, i + n.len(), n) {
            proof {
                assert(0 <= i as int && i as int + n@.len() <= h@.len() && h@.subrange(
                    i as int,
                    i as int + n@.len(),
                ) == n@);
            }
            return true;
        }
        i = i + 1;
    }
    false
}

/// Whether `s` starts with `p`.
pub open spec fn starts_with_seq(s: Seq<u8>, p: Seq<u8>) -> bool {
    p.len() <= s.len() && s.subrange(0, p.len() as int) == p
}

pub fn starts_with_bytes(s: &[u8], p: &[u8]) -> (r: bool)
    ensures
        r == starts_with_seq(s@, p@),
{
    if p.len() > s.len() {
        return false;
    }
    range_eq(s, 0, p.len(), p)
}

/// Whether `s` ends with `p`.
pub open spec fn ends_with_seq(s: Seq<u8>, p: Seq<u8>) -> bool {
    p.len() <= s.len() && s.subrange(s.len() - p.len(), s.len() as int) == p
}

pub fn ends_with_bytes(s: &[u8], p: &[u8]) -> (r: bool)
    ensures
        r == ends_with_seq(s@, p@),
{
    if p.len() > s.len() {
        return false;
    }
    range_eq(s, s.len() - p.len(), s.len(), p)
}

/// Decimal digit?
pub open spec fn is_digit(b: u8) -> bool {
    48 <= b <= 57
}

pub open spec fn all_digits(s: Seq<u8>) -> bool {
    forall|i: int| 0 <= i < s.len() ==> is_digit(#[trigger] s[i])
}

/// Numeric value of a digit string, most significant digit first.
pub open spec fn dec_val(s: Seq<u8>) -> int
    decreases s.len(),
{
    if s.len() == 0 {
        0
    } else {
        dec_val(s.drop_last()) * 10 + (s.last() - 48)
    }
}

pub proof fn lemma_dec_val_nonneg(s: Seq<u8>)
    requires
        all_digits(s),
    ensures
        dec_val(s) >= 0,
    decreases s.len(),
{
    if s.len() > 0 {
        assert(all_digits(s.drop_last())) by {
            assert(forall|i: int|
                0 <= i < s.len() - 1 ==> is_digit(#[trigger] s.drop_last()[i]) == is_digit(s[i]));
        }
        lemma_dec_val_nonneg(s.drop_last());
    }
}

/// A digit string is worth at least any of its prefixes.
pub proof fn lemma_dec_val_prefix(s: Seq<u8>, n: int)
    requires
        all_digits(s),
        0 <= n <= s.len(),
    ensures
        dec_val(s) >= dec_val(s.take(n)),
    decreases s.len() - n,
{
    if n < s.len() {
        lemma_dec_val_prefix(s, n + 1);
        let t = s.take(n + 1);
        assert(t.drop_last() =~= s.take(n));
        assert(all_digits(s.take(n))) by {
            assert(forall|i: int|
                0 <= i < n ==> is_digit(#[trigger] s.take(n)[i]) == is_digit(s[i]));
        }
        lemma_dec_val_nonneg(s.take(n));
        assert(dec_val(t) == dec_val(s.take(n)) * 10 + (t.last() - 48));
        assert(dec_val(s.take(n)) * 10 >= dec_val(s.take(n))) by (nonlinear_arith)
            requires
                dec_val(s.take(n)) >= 0,
        ;
    } else {
        assert(s.take(n) =~= s);
    }
}

/// Parses `s[lo..hi]` as an unsigned decimal number.
///
/// Returns `Some` exactly when the field is non-empty, all digits, and its
/// value fits in `u64`.
pub fn parse_u64_range(s: &[u8], lo: usize, hi: usize) -> (r: Option<u64>)
    requires
        lo <= hi <= s@.len(),
    ensures
        ({
            let f = s@.subrange(lo as int, hi as int);
            match r {
                Some(v) => f.len() > 0 && all_digits(f) && dec_val(f) == v,
                None => !(f.len() > 0 && all_digits(f) && dec_val(f) <= u64::MAX),
            }
        }),
{
    let ghost f = s@.subrange(lo as int, hi as int);
    if lo == hi {
        return None;
    }
    let mut v: u64 = 0;
    let mut i: usize = lo;
    while i < hi
        invariant
            lo <= i <= hi <= s@.len(),
            f == s@.subrange(lo as int, hi as int),
            all_digits(f.take(i - lo)),
            v == dec_val(f.take(i - lo)),
        decreases hi - i,
    {
        let c = s[i];
        proof {
            assert(f.take(i + 1 - lo).drop_last() =~= f.take(i - lo));
            assert(f.take(i + 1 - lo).last() == s@[i as int]);
        }
        if c < 48 || c > 57 {
            proof {
                assert(!is_digit(f[i - lo]));
            }
            return None;
        }
        let d: u64 = (c - 48) as u64;
        proof {
            assert(all_digits(f.take(i + 1 - lo))) by {
                assert(forall|j: int|
                    0 <= j < i + 1 - lo ==> is_digit(#[trigger] f.take(i + 1 - lo)[j]) == is_digit(
                        f[j],
                    ));
                assert(is_digit(f[i - lo]));
            }
        }
        let next = match v.checked_mul(10) {
            Some(m) => m.checked_add(d),
            None => None,
        };
        match next {
            Some(nv) => {
                v = nv;
                proof {
                    assert(dec_val(f.take(i + 1 - lo)) == dec_val(f.take(i - lo)) * 10 + d);
                }
            },
            None => {
                proof {
                    if all_digits(f) {
                        lemma_dec_val_prefix(f, i + 1 - lo);
                        assert(dec_val(f.take(i + 1 - lo)) == dec_val(f.take(i - lo)) * 10 + d);
                        assert(v * 10 + d > u64::MAX);
                    }
                }
                return None;
            },
        }
        i = i + 1;
    }
    proof {
        assert(f.take(hi - lo) =~= f);
    }
    Some(v)
}

/// Decimal numeral of a non-negative number, most significant digit first.
pub open spec fn dec_rep(n: int) -> Seq<u8>
    decreases n,
{
    if n < 0 {
        Seq::empty()
    } else if n < 10 {
        seq![(48 + n) as u8]
    } else {
        dec_rep(n / 10).push((48 + n % 10) as u8)
    }
}

/// Renders `n` in decimal.
pub fn u64_to_dec(n: u64) -> (v: Vec<u8>)
    ensures
        v@ == dec_rep(n as int),
    decreases n,
{
    if n < 10 {
        let mut v: Vec<u8> = Vec::new();
        v.push(48 + n as u8);
        proof {
            assert(v@ =~= dec_rep(n as int));
        }
        v
    } else {
        let mut v = u64_to_dec(n / 10);
        v.push(48 + (n % 10) as u8);
        v
    }
}

/// Appends all of `s` to `v`.
pub fn push_all(v: &mut Vec<u8>, s: &[u8])
    ensures
        final(v)@ == old(v)@ + s@,
{
    let mut i: usize = 0;
    while i < s.len()
        invariant
            i <= s@.len(),
            v@ == old(v)@ + s@.take(i as int),
        decreases s@.len() - i,
    {
        v.push(s[i]);
        proof {
            assert(old(v)@ + s@.take(i + 1) =~= (old(v)@ + s@.take(i as int)).push(s@[i as int]));
        }
        i = i + 1;
    }
    proof {
        assert(s@.take(s@.len() as int) =~= s@);
    }
}

} // verus!
