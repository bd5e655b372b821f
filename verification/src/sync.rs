//! The incremental sync coordinator's decision logic: watermark-driven
//! paging, run to convergence within one invocation.
//!
//! The outside work of a real sync — fetching a page over the network —
//! cannot be decided here; the coordinator is therefore split into the
//! per-step decision (`should_fetch`), the page application
//! (`apply_page`), and a replay (`run_sync`) that consumes pages already
//! fetched, exactly as the paging loop would.

use vstd::prelude::*;
use crate::model::{Sample, records, Record};
use crate::store::SampleStore;
use crate::interval::TimeInterval;

verus! {

/// One upstream page: the page's reported end time and its samples.
pub struct SyncPage {
    pub end_time: u64,
    pub intervals: Vec<Sample>,
}

/// The fetch request a scheduler tick issues for a domain: resume from
/// the watermark, with the schedule's own interval and the fixed page
/// size.
pub struct FetchPlan {
    pub from: u64,
    pub count: u64,
    pub interval: TimeInterval,
}

/// How many pages the paging loop consumes: it stops as soon as the
/// watermark reaches the current time, or when no page is left.
pub open spec fn pages_consumed(pages: Seq<SyncPage>, from: u64, now: u64) -> int
    decreases pages.len(),
{
    if from >= now || pages.len() == 0 {
        0
    } else {
        1 + pages_consumed(pages.drop_first(), pages.first().end_time, now)
    }
}

/// The watermark after the paging loop: each consumed page advances it
/// to that page's reported end time.
pub open spec fn final_watermark(pages: Seq<SyncPage>, from: u64, now: u64) -> u64
    decreases pages.len(),
{
    if from >= now || pages.len() == 0 {
        from
    } else {
        final_watermark(pages.drop_first(), pages.first().end_time, now)
    }
}

/// The records the paging loop inserts: every sample of every consumed
/// page, in page order.
pub open spec fn consumed_records(pages: Seq<SyncPage>, from: u64, now: u64) -> Seq<Record>
    decreases pages.len(),
{
    if from >= now || pages.len() == 0 {
        Seq::<Record>::empty()
    } else {
        records(pages.first().intervals@) + consumed_records(
            pages.drop_first(),
            pages.first().end_time,
            now,
        )
    }
}

/// The per-step decision of the paging loop: fetch another page exactly
/// while the watermark has not reached the current time.
pub fn should_fetch(from: u64, now: u64) -> (r: bool)
    ensures
        r == (from < now),
{
    from < now
}

/// Applies one fetched page: inserts every sample unconditionally and
/// advances the watermark to the page's reported end time.
pub fn apply_page(store: &mut SampleStore, page: SyncPage) -> (new_from: u64)
    ensures
        final(store)@ == old(store)@ + records(page.intervals@),
        new_from == page.end_time,
{
    let end = page.end_time;
    store.insert_page(page.intervals);
    end
}

/// Replays the paging loop over pages already fetched: starting from the
/// given watermark, consumes pages in order until the watermark reaches
/// `now` or the pages run out, inserting every consumed sample.
///
/// Returns how many pages were consumed and the final watermark.
pub fn run_sync(store: &mut SampleStore, from: u64, pages: Vec<SyncPage>, now: u64) -> (r: (
    usize,
    u64,
))
    ensures
        r.0 == pages_consumed(pages@, from, now),
        r.1 == final_watermark(pages@, from, now),
        final(store)@ == old(store)@ + consumed_records(pages@, from, now),
{
    let ghost orig: Seq<SyncPage> = pages@;
    let n0 = pages.len();
    let mut rest = pages;
    let mut cur: u64 = from;
    let mut fetched: usize = 0;
    proof {
        assert(orig.len() == n0);
        assert(old(store)@ + Seq::<Record>::empty() =~= old(store)@);
        assert(self_consumed(old(store)@, store@) =~= Seq::<Record>::empty());
    }
    while cur < now && rest.len() > 0
        invariant
            orig.len() <= usize::MAX,
            rest@.len() <= orig.len(),
            rest@ =~= orig.subrange(orig.len() - rest@.len(), orig.len() as int),
            fetched == orig.len() - rest@.len(),
            pages_consumed(orig, from, now) == fetched + pages_consumed(rest@, cur, now),
            final_watermark(orig, from, now) == final_watermark(rest@, cur, now),
            consumed_records(orig, from, now) =~= (self_consumed(old(store)@, store@))
                + consumed_records(rest@, cur, now),
            store@ =~= old(store)@ + self_consumed(old(store)@, store@),
        decreases rest@.len(),
    {
        let ghost rest_old: Seq<SyncPage> = rest@;
        let ghost store_old: Seq<Record> = store@;
        let page = rest.remove(0);
        proof {
            assert(rest_old.first() == page);
            assert(rest@ =~= rest_old.drop_first());
            assert(pages_consumed(rest_old, cur, now) == 1 + pages_consumed(
                rest@,
                page.end_time,
                now,
            ));
            assert(final_watermark(rest_old, cur, now) == final_watermark(
                rest@,
                page.end_time,
                now,
            ));
            assert(consumed_records(rest_old, cur, now) =~= records(page.intervals@)
                + consumed_records(rest@, page.end_time, now));
        }
        cur = apply_page(store, page);
        fetched = fetched + 1;
        proof {
            assert(store@ =~= store_old + records(rest_old.first().intervals@));
            assert(self_consumed(old(store)@, store@) =~= self_consumed(old(store)@, store_old)
                + records(rest_old.first().intervals@));
            assert(consumed_records(orig, from, now) =~= (self_consumed(old(store)@, store@))
                + consumed_records(rest@, cur, now));
            assert(store@ =~= old(store)@ + self_consumed(old(store)@, store@));
            assert(rest@ =~= orig.subrange(orig.len() - rest@.len(), orig.len() as int));
        }
    }
    (fetched, cur)
}

/// The part of the store beyond its old prefix.
pub open spec fn self_consumed(old_rows: Seq<Record>, new_rows: Seq<Record>) -> Seq<Record> {
    new_rows.subrange(old_rows.len() as int, new_rows.len() as int)
}

/// The request a scheduler tick issues for each domain: resume from the
/// stored watermark with the schedule's hourly interval and the fixed
/// page size of 400 samples.
pub fn tick_plan(watermark: u64) -> (r: FetchPlan)
    ensures
        r.from == watermark,
        r.count == 400,
        r.interval == TimeInterval::Hour,
{
    FetchPlan { from: watermark, count: 400, interval: TimeInterval::Hour }
}

} // verus!
