//! Cache store: entry naming, entry content, planning, pruning, and the
//! atomic-publish discipline.
//!
//! A job's results are written to a staging file first and become visible
//! only by an atomic rename to the canonical entry name, so a crash or
//! stall never leaves a partly written entry visible. A job whose
//! canonical entry already exists is skipped before any network activity.
//! The janitor removes entries of jobs no longer of interest and leaves
//! anything it does not understand untouched.

use vstd::prelude::*;

use crate::accum::JobAccumulator;
use crate::bytes::{
    all_digits, dec_rep, dec_val, ends_with_bytes, ends_with_seq, parse_u64_range, push_all,
    u64_to_dec, NL,
};
use crate::extract::RecordModel;

verus! {

/// The suffix of a canonical cache entry's file name.
pub open spec fn cache_suffix() -> Seq<u8> {
    seq![('.' as u8), ('c' as u8), ('a' as u8), ('c' as u8), ('h' as u8), ('e' as u8)]
}

/// The suffix of a staging file's name.
pub open spec fn staging_suffix() -> Seq<u8> {
    cache_suffix() + seq![('.' as u8), ('n' as u8), ('e' as u8), ('w' as u8)]
}

fn cache_suffix_bytes() -> (v: Vec<u8>)
    ensures
        v@ == cache_suffix(),
{
    let mut v: Vec<u8> = Vec::new();
    v.push('.' as u8);
    v.push('c' as u8);
    v.push('a' as u8);
    v.push('c' as u8);
    v.push('h' as u8);
    v.push('e' as u8);
    proof {
        assert(v@ =~= cache_suffix());
    }
    v
}

/// The canonical cache entry name of a job: its decimal identifier with
/// the cache suffix.
pub open spec fn spec_cache_name(job: u64) -> Seq<u8> {
    dec_rep(job as int) + cache_suffix()
}

/// The staging name of a job: the canonical name with the staging suffix.
pub open spec fn spec_staging_name(job: u64) -> Seq<u8> {
    dec_rep(job as int) + staging_suffix()
}

/// The canonical cache entry file name of a job.
pub fn cache_entry_name(job: u64) -> (v: Vec<u8>)
    ensures
        v@ == spec_cache_name(job),
{
    let mut v = u64_to_dec(job);
    let suffix = cache_suffix_bytes();
    push_all(&mut v, suffix.as_slice());
    v
}

/// The staging file name of a job.
pub fn staging_entry_name(job: u64) -> (v: Vec<u8>)
    ensures
        v@ == spec_staging_name(job),
{
    let mut v = u64_to_dec(job);
    let suffix = cache_suffix_bytes();
    push_all(&mut v, suffix.as_slice());
    v.push('.' as u8);
    v.push('n' as u8);
    v.push('e' as u8);
    v.push('w' as u8);
    proof {
        assert(v@ =~= spec_staging_name(job));
    }
    v
}

/// The content of a job's cache entry: one payload line per record, in
/// accumulator order.
pub open spec fn spec_render(recs: Seq<RecordModel>) -> Seq<u8>
    decreases recs.len(),
{
    if recs.len() == 0 {
        Seq::empty()
    } else {
        spec_render(recs.drop_last()) + recs.last().payload + seq![NL]
    }
}

/// Renders a job's accumulated records as its cache entry content.
pub fn render_records(acc: &JobAccumulator) -> (v: Vec<u8>)
    ensures
        v@ == spec_render(acc.records_view()),
{
    let recs = acc.records();
    let ghost rv = acc.records_view();
    let mut v: Vec<u8> = Vec::new();
    let mut i: usize = 0;
    proof {
        assert(rv.take(0) =~= Seq::<RecordModel>::empty());
        assert(v@ =~= spec_render(rv.take(0)));
    }
    while i < recs.len()
        invariant
            i <= recs@.len() == rv.len(),
            rv == recs@.map_values(|r: crate::extract::ExtractedRecord| r@),
            v@ == spec_render(rv.take(i as int)),
        decreases recs@.len() - i,
    {
        push_all(&mut v, recs[i].payload.as_slice());
        v.push(NL);
        proof {
            assert(rv.take(i + 1).drop_last() =~= rv.take(i as int));
            assert(rv.take(i + 1).last() == rv[i as int]);
            assert(rv[i as int].payload == recs@[i as int].payload@);
            assert(v@ =~= spec_render(rv.take(i as int)) + rv[i as int].payload + seq![NL]);
        }
        i = i + 1;
    }
    proof {
        assert(rv.take(rv.len() as int) =~= rv);
    }
    v
}

/// The content of a job's companion entry contribution for one build: the
/// summary line followed by a line feed (the line is empty when the build
/// had no usable failing step).
pub fn render_companion(line: &[u8]) -> (v: Vec<u8>)
    ensures
        v@ == line@ + seq![NL],
{
    let mut v: Vec<u8> = Vec::new();
    push_all(&mut v, line);
    v.push(NL);
    v
}

/// Whether the janitor deletes a directory entry: only a name that is a
/// decimal job identifier followed by the cache suffix, for a job not in
/// the known set, is deleted. Anything else — a staging file, a foreign
/// file, a malformed stem — is left untouched.
pub open spec fn spec_janitor_delete(name: Seq<u8>, known: Seq<u64>) -> bool {
    &&& ends_with_seq(name, cache_suffix())
    &&& {
        let stem = name.take(name.len() - cache_suffix().len());
        &&& stem.len() > 0
        &&& all_digits(stem)
        &&& dec_val(stem) <= u64::MAX
        &&& !known.contains((dec_val(stem) as u64))
    }
}

/// Whether `known` holds `x`.
pub fn contains_u64(known: &Vec<u64>, x: u64) -> (r: bool)
    ensures
        r == known@.contains(x),
{
    let mut i: usize = 0;
    while i < known.len()
        invariant
            i <= known@.len(),
            forall|j: int| 0 <= j < i ==> known@[j] != x,
        decreases known@.len() - i,
    {
        if known[i] == x {
            return true;
        }
        i = i + 1;
    }
    false
}

/// Decides whether the janitor deletes the entry called `name` when the
/// jobs in `known` are the ones still of interest.
pub fn janitor_should_delete(name: &[u8], known: &Vec<u64>) -> (r: bool)
    ensures
        r == spec_janitor_delete(name@, known@),
{
    let suffix = cache_suffix_bytes();
    if !ends_with_bytes(name, suffix.as_slice()) {
        return false;
    }
    let stem_len = name.len() - suffix.len();
    let job = match parse_u64_range(name, 0, stem_len) {
        Some(j) => j,
        None => {
            proof {
                assert(name@.subrange(0, stem_len as int) =~= name@.take(
                    name@.len() - cache_suffix().len(),
                ));
            }
            return false;
        },
    };
    proof {
        assert(name@.subrange(0, stem_len as int) =~= name@.take(
            name@.len() - cache_suffix().len(),
        ));
    }
    !contains_u64(known, job)
}

/// The jobs that must actually be crawled: those whose canonical cache
/// entry is not already present, in input order.
pub open spec fn plan_from(jobs: Seq<u64>, cached: Seq<bool>, i: int) -> Seq<u64>
    decreases jobs.len() - i,
{
    if i < 0 || i >= jobs.len() || jobs.len() != cached.len() {
        Seq::empty()
    } else {
        (if !cached[i] {
            seq![jobs[i]]
        } else {
            Seq::empty()
        }) + plan_from(jobs, cached, i + 1)
    }
}

/// Selects the jobs whose cache entry is missing; a job already holding a
/// published entry is skipped before any network activity.
pub fn plan_jobs(jobs: &Vec<u64>, cached: &Vec<bool>) -> (r: Vec<u64>)
    requires
        jobs@.len() == cached@.len(),
    ensures
        r@ == plan_from(jobs@, cached@, 0),
{
    let mut r: Vec<u64> = Vec::new();
    let mut i: usize = 0;
    proof {
        assert(r@ + plan_from(jobs@, cached@, 0) =~= plan_from(jobs@, cached@, 0));
    }
    while i < jobs.len()
        invariant
            i <= jobs@.len() == cached@.len(),
            r@ + plan_from(jobs@, cached@, i as int) == plan_from(jobs@, cached@, 0),
        decreases jobs@.len() - i,
    {
        let ghost r0 = r@;
        if !cached[i] {
            r.push(jobs[i]);
        }
        proof {
            assert(r0 + plan_from(jobs@, cached@, i as int) =~= r@ + plan_from(
                jobs@,
                cached@,
                i + 1,
            ));
        }
        i = i + 1;
    }
    proof {
        assert(plan_from(jobs@, cached@, jobs@.len() as int) == Seq::<u64>::empty());
        assert(r@ + Seq::<u64>::empty() =~= r@);
    }
    r
}

/// Idempotence law: when every requested job already holds a published
/// cache entry, the plan is empty, so a repeated run schedules no fetch
/// task and performs no network request.
pub proof fn lemma_cached_run_plans_nothing(jobs: Seq<u64>, cached: Seq<bool>)
    requires
        jobs.len() == cached.len(),
        forall|i: int| 0 <= i < cached.len() ==> #[trigger] cached[i],
    ensures
        plan_from(jobs, cached, 0) == Seq::<u64>::empty(),
{
    lemma_cached_plan_from(jobs, cached, 0);
}

proof fn lemma_cached_plan_from(jobs: Seq<u64>, cached: Seq<bool>, i: int)
    requires
        jobs.len() == cached.len(),
        forall|i: int| 0 <= i < cached.len() ==> #[trigger] cached[i],
    ensures
        plan_from(jobs, cached, i) == Seq::<u64>::empty(),
    decreases jobs.len() - i,
{
    if 0 <= i < jobs.len() {
        lemma_cached_plan_from(jobs, cached, i + 1);
        assert(Seq::<u64>::empty() + Seq::<u64>::empty() =~= Seq::<u64>::empty());
    }
}

/// The visible and staged entries of the cache directory, as a model: what
/// a reader can observe is only `published`.
pub struct CacheDirModel {
    pub published: Map<u64, Seq<u8>>,
    pub staged: Map<u64, Seq<u8>>,
}

/// Staging writes a job's content to its staging file; nothing published
/// changes.
pub open spec fn stage_op(d: CacheDirModel, job: u64, content: Seq<u8>) -> CacheDirModel {
    CacheDirModel { published: d.published, staged: d.staged.insert(job, content) }
}

/// Publishing renames the staging file onto the canonical entry in one
/// indivisible step: the staged content becomes visible whole.
pub open spec fn publish_op(d: CacheDirModel, job: u64) -> CacheDirModel {
    CacheDirModel {
        published: d.published.insert(job, d.staged[job]),
        staged: d.staged.remove(job),
    }
}

/// An interruption loses (or orphans) whatever is staged; it cannot touch
/// published entries.
pub open spec fn interrupt_op(d: CacheDirModel) -> CacheDirModel {
    CacheDirModel { published: d.published, staged: Map::empty() }
}

/// Atomicity law: an interruption between staging and publish leaves the
/// published entries exactly as they were before the run — the job's entry
/// is the old one from a prior run, or none, never a partial one.
pub proof fn lemma_interrupt_between_stage_and_publish(
    d: CacheDirModel,
    job: u64,
    content: Seq<u8>,
)
    ensures
        interrupt_op(stage_op(d, job, content)).published == d.published,
        stage_op(d, job, content).published == d.published,
{
}

/// Publishing after staging makes exactly the staged content visible.
pub proof fn lemma_publish_after_stage(d: CacheDirModel, job: u64, content: Seq<u8>)
    ensures
        publish_op(stage_op(d, job, content), job).published == d.published.insert(job, content),
{
}

} // verus!
