//! Per-job deduplicating accumulator.
//!
//! One job's crawl runs many tasks, one per build; retried or restarted
//! attempts of the same underlying failure produce records with the same
//! identity key. The accumulator collapses them: it maps identity keys to
//! payloads, last write wins. Task completion order can therefore only
//! affect which duplicate's payload survives, never the set of keys.

use vstd::prelude::*;

use crate::bytes::bytes_eq;
use crate::extract::{ExtractedRecord, RecordModel};

verus! {

/// The mapping held by a record sequence, later records overriding earlier
/// ones with the same identity key.
pub open spec fn map_of(recs: Seq<RecordModel>) -> Map<Seq<u8>, Seq<u8>>
    decreases recs.len(),
{
    if recs.len() == 0 {
        Map::empty()
    } else {
        map_of(recs.drop_last()).insert(recs.last().identity_key, recs.last().payload)
    }
}

/// No two records share an identity key.
pub open spec fn unique_keys(recs: Seq<RecordModel>) -> bool {
    forall|i: int, j: int|
        0 <= i < j < recs.len() ==> (#[trigger] recs[i].identity_key) != (
        #[trigger] recs[j].identity_key)
}

/// A job's in-memory accumulator: one record per distinct identity key.
pub struct JobAccumulator {
    records: Vec<ExtractedRecord>,
}

impl View for JobAccumulator {
    type V = Map<Seq<u8>, Seq<u8>>;

    open spec fn view(&self) -> Map<Seq<u8>, Seq<u8>> {
        map_of(self.records_view())
    }
}

impl JobAccumulator {
    /// The records held, as mathematical values, in holding order.
    pub closed spec fn records_view(&self) -> Seq<RecordModel> {
        self.records@.map_values(|r: ExtractedRecord| r@)
    }

    /// Well-formedness: at most one record per identity key.
    pub open spec fn wf(&self) -> bool {
        unique_keys(self.records_view())
    }

    /// An empty accumulator.
    pub fn new() -> (a: JobAccumulator)
        ensures
            a.wf(),
            a@ == Map::<Seq<u8>, Seq<u8>>::empty(),
            a.records_view() == Seq::<RecordModel>::empty(),
    {
        let a = JobAccumulator { records: Vec::new() };
        proof {
            assert(a.records_view() =~= Seq::<RecordModel>::empty());
        }
        a
    }

    /// The records held, in holding order.
    pub fn records(&self) -> (r: &Vec<ExtractedRecord>)
        ensures
            r@.map_values(|x: ExtractedRecord| x@) == self.records_view(),
    {
        &self.records
    }

    /// Inserts one record, last write wins: an existing record with the
    /// same identity key is replaced in place, otherwise the record is
    /// appended.
    #[verifier::loop_isolation(false)]
    pub fn insert(&mut self, rec: ExtractedRecord)
        requires
            old(self).wf(),
        ensures
            final(self).wf(),
            final(self)@ == old(self)@.insert(rec.identity_key@, rec.payload@),
            final(self).records_view().len() <= old(self).records_view().len() + 1,
    {
        let ghost recs0 = self.records_view();
        let mut i: usize = 0;
        while i < self.records.len()
            invariant
                i <= self.records@.len(),
                recs0 == self.records_view(),
                forall|j: int|
                    0 <= j < i ==> (#[trigger] self.records_view()[j].identity_key)
                        != rec.identity_key@,

            decreases self.records@.len() - i,
        {
            if bytes_eq(self.records[i].identity_key.as_slice(), rec.identity_key.as_slice()) {
                proof {
                    assert(recs0[i as int].identity_key == rec.identity_key@);
                }
                let ghost recm = rec@;
                self.records[i] = rec;
                proof {
                    let newv = self.records_view();
                    assert(newv =~= recs0.update(i as int, recm));
                    lemma_map_of_update(recs0, i as int, recm);
                    assert(forall|m: int|
                        0 <= m < newv.len() ==> (#[trigger] newv[m].identity_key)
                            == recs0[m].identity_key);
                    assert(unique_keys(newv));
                }
                return ;
            }
            i = i + 1;
        }
        proof {
            assert(forall|j: int|
                0 <= j < recs0.len() ==> (#[trigger] recs0[j].identity_key) != rec.identity_key@);
        }
        self.records.push(rec);
        proof {
            assert(self.records_view() =~= recs0.push(rec@));
            assert(self.records_view().drop_last() =~= recs0);
            assert(unique_keys(self.records_view()));
        }
    }
}

/// For a sequence without duplicate keys, replacing the record at the
/// position of a key is, as a mapping, inserting under that key.
pub proof fn lemma_map_of_update(recs: Seq<RecordModel>, i: int, rec: RecordModel)
    requires
        0 <= i < recs.len(),
        unique_keys(recs),
        recs[i].identity_key == rec.identity_key,
    ensures
        map_of(recs.update(i, rec)) == map_of(recs).insert(rec.identity_key, rec.payload),
    decreases recs.len(),
{
    let u = recs.update(i, rec);
    if i == recs.len() - 1 {
        assert(u.drop_last() =~= recs.drop_last());
        assert(u.last() == rec);
        assert(map_of(recs.drop_last()).insert(recs.last().identity_key, recs.last().payload)
            .insert(rec.identity_key, rec.payload) =~= map_of(recs.drop_last()).insert(
            rec.identity_key,
            rec.payload,
        ));
    } else {
        let prefix = recs.drop_last();
        assert(u.drop_last() =~= prefix.update(i, rec));
        assert(u.last() == recs.last());
        assert(unique_keys(prefix)) by {
            assert(forall|m: int, n: int|
                0 <= m < n < prefix.len() ==> (#[trigger] prefix[m].identity_key) != (
                #[trigger] prefix[n].identity_key)) by {
                assert(forall|m: int| 0 <= m < prefix.len() ==> prefix[m] == recs[m]);
            }
        }
        lemma_map_of_update(prefix, i, rec);
        let lk = recs.last().identity_key;
        let lp = recs.last().payload;
        assert(lk != rec.identity_key);
        assert(map_of(prefix).insert(rec.identity_key, rec.payload).insert(lk, lp) =~= map_of(
            prefix,
        ).insert(lk, lp).insert(rec.identity_key, rec.payload));
    }
}

/// Law: inserting records with distinct identity keys commutes; the final
/// mapping does not depend on the order in which different failures'
/// records arrive.
pub proof fn lemma_insert_commutes(
    m: Map<Seq<u8>, Seq<u8>>,
    k1: Seq<u8>,
    v1: Seq<u8>,
    k2: Seq<u8>,
    v2: Seq<u8>,
)
    requires
        k1 != k2,
    ensures
        m.insert(k1, v1).insert(k2, v2) == m.insert(k2, v2).insert(k1, v1),
{
    assert(m.insert(k1, v1).insert(k2, v2) =~= m.insert(k2, v2).insert(k1, v1));
}

/// Law: inserting twice under one identity key keeps exactly the last
/// payload; duplicates collapse to one record per distinct key.
pub proof fn lemma_last_write_wins(m: Map<Seq<u8>, Seq<u8>>, k: Seq<u8>, v1: Seq<u8>, v2: Seq<u8>)
    ensures
        m.insert(k, v1).insert(k, v2) == m.insert(k, v2),
{
    assert(m.insert(k, v1).insert(k, v2) =~= m.insert(k, v2));
}

/// In a well-formed accumulator two records with one identity key are the
/// same record.
pub proof fn lemma_one_record_per_key(recs: Seq<RecordModel>, i: int, j: int)
    requires
        unique_keys(recs),
        0 <= i < recs.len(),
        0 <= j < recs.len(),
        recs[i].identity_key == recs[j].identity_key,
    ensures
        i == j,
{
}

/// The mapping's keys are exactly the identity keys of the records.
pub proof fn lemma_map_of_contains(recs: Seq<RecordModel>, k: Seq<u8>)
    ensures
        map_of(recs).contains_key(k) <==> (exists|i: int|
            0 <= i < recs.len() && (#[trigger] recs[i]).identity_key == k),
    decreases recs.len(),
{
    if recs.len() > 0 {
        let prefix = recs.drop_last();
        lemma_map_of_contains(prefix, k);
        if recs.last().identity_key == k {
            assert(recs[recs.len() - 1].identity_key == k);
        } else {
            assert(forall|i: int| 0 <= i < prefix.len() ==> #[trigger] prefix[i] == recs[i]);
            if exists|i: int| 0 <= i < recs.len() && (#[trigger] recs[i]).identity_key == k {
                let i = choose|i: int| 0 <= i < recs.len() && (#[trigger] recs[i]).identity_key
                    == k;
                assert(i < prefix.len() && prefix[i].identity_key == k);
            }
        }
    }
}

/// Law: a well-formed accumulator holds exactly one record per distinct
/// identity key — its mapping has exactly as many entries as it has
/// records.
pub proof fn lemma_exactly_one_record_per_key(recs: Seq<RecordModel>)
    requires
        unique_keys(recs),
    ensures
        map_of(recs).dom().finite(),
        map_of(recs).dom().len() == recs.len(),
    decreases recs.len(),
{
    if recs.len() == 0 {
        assert(map_of(recs).dom() =~= Set::<Seq<u8>>::empty());
    } else {
        let prefix = recs.drop_last();
        let k = recs.last().identity_key;
        assert(unique_keys(prefix)) by {
            assert(forall|m: int| 0 <= m < prefix.len() ==> #[trigger] prefix[m] == recs[m]);
        }
        lemma_exactly_one_record_per_key(prefix);
        lemma_map_of_contains(prefix, k);
        assert(!map_of(prefix).contains_key(k)) by {
            if exists|i: int| 0 <= i < prefix.len() && (#[trigger] prefix[i]).identity_key == k {
                let i = choose|i: int|
                    0 <= i < prefix.len() && (#[trigger] prefix[i]).identity_key == k;
                assert(recs[i].identity_key == recs[recs.len() - 1].identity_key);
            }
        }
        assert(map_of(recs).dom() =~= map_of(prefix).dom().insert(k));
    }
}

/// The mapping holds exactly the keys of the records; under uniqueness each
/// record's payload is the mapping's value at its key.
pub proof fn lemma_map_of_index(recs: Seq<RecordModel>, i: int)
    requires
        unique_keys(recs),
        0 <= i < recs.len(),
    ensures
        map_of(recs).contains_key(recs[i].identity_key),
        map_of(recs)[recs[i].identity_key] == recs[i].payload,
    decreases recs.len(),
{
    if i == recs.len() - 1 {
    } else {
        let prefix = recs.drop_last();
        assert(unique_keys(prefix)) by {
            assert(forall|m: int| 0 <= m < prefix.len() ==> prefix[m] == recs[m]);
        }
        lemma_map_of_index(prefix, i);
        assert(recs.last().identity_key != recs[i].identity_key);
    }
}

} // verus!
