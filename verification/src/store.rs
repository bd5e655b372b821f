//! The raw sample store: an append-only, per-domain collection of
//! upstream samples, read as the sequence of records it holds in
//! insertion order.

use vstd::prelude::*;
use crate::model::{Sample, Bucket, Record, records};
use crate::query::QuerySpec;
use crate::engine::{query_rows, query_buckets, fetch_history, HistoryResult, summary_of};
use crate::interval::interval_seconds;

verus! {

/// The append-only store of one domain's raw samples.
pub struct SampleStore {
    samples: Vec<Sample>,
}

impl View for SampleStore {
    type V = Seq<Record>;

    closed spec fn view(&self) -> Seq<Record> {
        records(self.samples@)
    }
}

/// The watermark a record sequence determines: the largest end time any
/// record carries, or zero for an empty store.
pub open spec fn watermark_of(s: Seq<Record>) -> int
    decreases s.len(),
{
    if s.len() == 0 {
        0
    } else {
        let rest = watermark_of(s.drop_last());
        if s.last().end_time > rest {
            s.last().end_time as int
        } else {
            rest
        }
    }
}

/// The watermark bounds every end time in the store and, in a nonempty
/// store, is one of them (or zero when every window ends at zero).
pub proof fn lemma_watermark_is_max(s: Seq<Record>)
    ensures
        forall|i: int| 0 <= i < s.len() ==> #[trigger] s[i].end_time <= watermark_of(s),
        s.len() > 0 ==> exists|i: int| 0 <= i < s.len() && #[trigger] s[i].end_time
            == watermark_of(s),
        watermark_of(s) >= 0,
    decreases s.len(),
{
    if s.len() > 0 {
        lemma_watermark_is_max(s.drop_last());
        assert(forall|i: int| 0 <= i < s.len() - 1 ==> s.drop_last()[i] == #[trigger] s[i]);
        let w = watermark_of(s);
        if s.last().end_time > watermark_of(s.drop_last()) {
            assert(s[s.len() - 1].end_time == w);
        } else {
            if s.len() > 1 {
                let i = choose|i: int|
                    0 <= i < s.len() - 1 && #[trigger] s.drop_last()[i].end_time == watermark_of(
                        s.drop_last(),
                    );
                assert(s[i].end_time == w);
            } else {
                assert(s[0].end_time == 0 && w == 0);
            }
        }
    }
}

impl SampleStore {
    /// An empty store.
    pub fn new() -> (r: SampleStore)
        ensures
            r@ == Seq::<Record>::empty(),
    {
        let r = SampleStore { samples: Vec::new() };
        proof {
            assert(r@ =~= Seq::<Record>::empty());
        }
        r
    }

    /// How many raw samples the store holds.
    pub fn len(&self) -> (r: usize)
        ensures
            r == self@.len(),
    {
        self.samples.len()
    }

    /// Unconditional single-sample insert: the sample is appended, with
    /// no existence check and no deduplication.
    pub fn insert(&mut self, s: Sample)
        ensures
            final(self)@ == old(self)@.push(s@),
    {
        self.samples.push(s);
        proof {
            assert(final(self)@ =~= old(self)@.push(s@));
        }
    }

    /// Appends every sample of an upstream page, in page order.
    pub fn insert_page(&mut self, page: Vec<Sample>)
        ensures
            final(self)@ == old(self)@ + records(page@),
    {
        let ghost page_rows: Seq<Sample> = page@;
        let mut rest = page;
        proof {
            assert(records(page_rows.take(0)) =~= Seq::<Record>::empty());
            assert(self@ =~= old(self)@ + records(page_rows.take(0)));
        }
        while rest.len() > 0
            invariant
                rest@.len() <= page_rows.len(),
                self@ =~= old(self)@ + records(
                    page_rows.take(page_rows.len() - rest@.len()),
                ),
                rest@ =~= page_rows.subrange(
                    page_rows.len() - rest@.len(),
                    page_rows.len() as int,
                ),
            decreases rest@.len(),
        {
            let ghost k = page_rows.len() - rest@.len();
            let ghost rest_old: Seq<Sample> = rest@;
            let s = rest.remove(0);
            proof {
                assert(rest_old[0] == page_rows[k]);
                assert(s == page_rows[k]);
                assert(rest@ =~= rest_old.drop_first());
                assert(rest@ =~= page_rows.subrange(k + 1, page_rows.len() as int));
            }
            self.insert(s);
            proof {
                assert(records(page_rows.take(k + 1)) =~= records(page_rows.take(k)).push(
                    page_rows[k]@,
                ));
                assert(self@ =~= old(self)@ + records(page_rows.take(k + 1)));
            }
        }
        proof {
            assert(page_rows.take(page_rows.len() as int) =~= page_rows);
        }
    }

    /// The watermark: the largest end time stored, or zero when the
    /// store is empty.
    pub fn get_last_end_time(&self) -> (r: u64)
        ensures
            r == watermark_of(self@),
    {
        let ghost rows: Seq<Record> = self@;
        let mut max: u64 = 0;
        let mut i: usize = 0;
        proof {
            assert(rows.take(0) =~= Seq::<Record>::empty());
        }
        while i < self.samples.len()
            invariant
                rows == records(self.samples@),
                0 <= i <= rows.len(),
                max == watermark_of(rows.take(i as int)),
            decreases rows.len() - i,
        {
            let e = self.samples[i].end_time;
            proof {
                let t1 = rows.take(i as int + 1);
                assert(t1.drop_last() =~= rows.take(i as int));
                assert(t1.last() == rows[i as int]);
                assert(t1.last().end_time == e);
            }
            if e > max {
                max = e;
            }
            i = i + 1;
        }
        proof {
            assert(rows.take(rows.len() as int) =~= rows);
        }
        max
    }

    /// Runs the bucketing pipeline over the store for a resolved query
    /// spec.
    pub fn query_buckets(&self, q: &QuerySpec) -> (r: Vec<Bucket>)
        ensures
            records(r@) == query_rows(
                self@,
                q.from,
                q.to,
                interval_seconds(q.interval) as u64,
                q.page as int,
                q.count as int,
                q.sort_key,
            ),
    {
        query_buckets(&self.samples, q)
    }

    /// Answers a history query over the store: the explicit no-data
    /// signal for an empty bucket page, else the page with its summary.
    pub fn fetch_history(&self, q: &QuerySpec) -> (r: HistoryResult)
        ensures
            ({
                let rows = query_rows(
                    self@,
                    q.from,
                    q.to,
                    interval_seconds(q.interval) as u64,
                    q.page as int,
                    q.count as int,
                    q.sort_key,
                );
                match r {
                    HistoryResult::NoData => rows.len() == 0,
                    HistoryResult::Data(meta, intervals) => rows.len() > 0 && records(intervals@)
                        == rows && meta@ == summary_of(rows.first(), rows.last()),
                }
            }),
    {
        fetch_history(&self.samples, q)
    }
}

} // verus!
