use midgard_history::engine::HistoryResult;
use midgard_history::interval::TimeInterval;
use midgard_history::model::Sample;
use midgard_history::query::{QuerySpec, SortKey};
use midgard_history::store::SampleStore;

fn sample(start: u64, end: u64, fields: Vec<u64>) -> Sample {
    Sample { start_time: start, end_time: end, fields }
}

fn spec(from: u64, to: u64, count: u64, interval: TimeInterval, page: i64, key: SortKey)
    -> QuerySpec {
    QuerySpec {
        from,
        to,
        count,
        interval,
        page,
        sort_key: key,
        sort_by: String::from("startTime"),
        pool: String::from("BTC.BTC"),
    }
}

#[test]
fn hourly_samples_fold_into_one_daily_bucket() {
    // Raw samples at 0, 3600, 7200, 10800, hourly, queried at day
    // granularity: exactly one bucket spanning [0, 14400) carrying the
    // last sample's metric values.
    let mut store = SampleStore::new();
    store.insert(sample(0, 3600, vec![10, 1]));
    store.insert(sample(3600, 7200, vec![20, 2]));
    store.insert(sample(7200, 10800, vec![30, 3]));
    store.insert(sample(10800, 14400, vec![40, 4]));
    let q = spec(0, 20000, 400, TimeInterval::Day, 1, SortKey::StartTime);
    let rows = store.query_buckets(&q);
    assert_eq!(rows.len(), 1);
    assert_eq!(rows[0].start_time, 0);
    assert_eq!(rows[0].end_time, 14400);
    assert_eq!(rows[0].fields, vec![40, 4]);
}

#[test]
fn empty_store_yields_no_data_signal() {
    // An empty store answers with the explicit no-data signal, not an
    // error, whatever the spec.
    let store = SampleStore::new();
    let q = spec(0, 100000, 400, TimeInterval::Hour, 1, SortKey::StartTime);
    match store.fetch_history(&q) {
        HistoryResult::NoData => {},
        HistoryResult::Data(_, _) => panic!("empty store must signal no data"),
    }
}

#[test]
fn out_of_range_spec_yields_no_data_signal() {
    let mut store = SampleStore::new();
    store.insert(sample(1000, 2000, vec![5]));
    let q = spec(500000, 600000, 400, TimeInterval::Hour, 1, SortKey::StartTime);
    match store.fetch_history(&q) {
        HistoryResult::NoData => {},
        HistoryResult::Data(_, _) => panic!("mis-specified range must signal no data"),
    }
}

#[test]
fn query_replay_is_idempotent() {
    // Re-running the same query over the same store gives identical
    // buckets: no cross-call mutation.
    let mut store = SampleStore::new();
    store.insert(sample(7200, 10800, vec![3]));
    store.insert(sample(0, 3600, vec![1]));
    store.insert(sample(3600, 7200, vec![2]));
    let q = spec(0, 100000, 400, TimeInterval::Day, 1, SortKey::StartTime);
    let first = store.query_buckets(&q);
    let second = store.query_buckets(&q);
    assert_eq!(first.len(), second.len());
    for (a, b) in first.iter().zip(second.iter()) {
        assert_eq!(a.start_time, b.start_time);
        assert_eq!(a.end_time, b.end_time);
        assert_eq!(a.fields, b.fields);
    }
}

#[test]
fn bucket_times_bound_window_samples() {
    // Each bucket starts at the earliest raw start time of its window
    // and ends at the last window sample's end time.
    let mut store = SampleStore::new();
    store.insert(sample(90000, 93600, vec![7]));
    store.insert(sample(86400, 90000, vec![6]));
    store.insert(sample(0, 3600, vec![1]));
    store.insert(sample(3600, 7200, vec![2]));
    let q = spec(0, 100000, 400, TimeInterval::Day, 1, SortKey::StartTime);
    let rows = store.query_buckets(&q);
    assert_eq!(rows.len(), 2);
    // Display order is descending by start time.
    assert_eq!(rows[0].start_time, 86400);
    assert_eq!(rows[0].end_time, 93600);
    assert_eq!(rows[0].fields, vec![7]);
    assert_eq!(rows[1].start_time, 0);
    assert_eq!(rows[1].end_time, 7200);
    assert_eq!(rows[1].fields, vec![2]);
}

#[test]
fn two_pages_cover_chronological_prefix() {
    // Page 1 and page 2 together are exactly the first 2 * count
    // chronological buckets, no gaps and no duplicates, although each
    // page is returned in display order.
    let mut store = SampleStore::new();
    for k in 0..5u64 {
        let start = k * 86400;
        store.insert(sample(start, start + 3600, vec![k]));
    }
    let count = 2u64;
    let q1 = spec(0, 1000000, count, TimeInterval::Day, 1, SortKey::StartTime);
    let q2 = spec(0, 1000000, count, TimeInterval::Day, 2, SortKey::StartTime);
    let p1 = store.query_buckets(&q1);
    let p2 = store.query_buckets(&q2);
    assert_eq!(p1.len(), 2);
    assert_eq!(p2.len(), 2);
    let mut starts: Vec<u64> = p1.iter().chain(p2.iter()).map(|b| b.start_time).collect();
    starts.sort();
    assert_eq!(starts, vec![0, 86400, 2 * 86400, 3 * 86400]);
}

#[test]
fn display_sort_descends_by_chosen_metric() {
    let mut store = SampleStore::new();
    store.insert(sample(0, 3600, vec![5]));
    store.insert(sample(86400, 90000, vec![50]));
    store.insert(sample(2 * 86400, 2 * 86400 + 3600, vec![20]));
    let q = spec(0, 1000000, 400, TimeInterval::Day, 1, SortKey::Metric(0));
    let rows = store.query_buckets(&q);
    assert_eq!(rows.len(), 3);
    assert_eq!(rows[0].fields[0], 50);
    assert_eq!(rows[1].fields[0], 20);
    assert_eq!(rows[2].fields[0], 5);
}

#[test]
fn pagination_beyond_data_is_empty() {
    let mut store = SampleStore::new();
    store.insert(sample(0, 3600, vec![1]));
    let q = spec(0, 100000, 400, TimeInterval::Day, 7, SortKey::StartTime);
    assert_eq!(store.query_buckets(&q).len(), 0);
    let q0 = spec(0, 100000, 400, TimeInterval::Day, -3, SortKey::StartTime);
    assert_eq!(store.query_buckets(&q0).len(), 1);
}

#[test]
fn summary_reads_page_boundaries() {
    // The summary is computed from the first and last row of the
    // returned page: start time from the first row, end time and
    // absolute values from the last, deltas last minus first.
    let mut store = SampleStore::new();
    store.insert(sample(0, 3600, vec![100, 7]));
    store.insert(sample(86400, 90000, vec![160, 3]));
    let q = spec(0, 1000000, 400, TimeInterval::Day, 1, SortKey::StartTime);
    match store.fetch_history(&q) {
        HistoryResult::NoData => panic!("populated store must return data"),
        HistoryResult::Data(meta, rows) => {
            assert_eq!(rows.len(), 2);
            // Display order is descending, so the first row is the later
            // bucket.
            assert_eq!(meta.start_time, 86400);
            assert_eq!(meta.end_time, 3600);
            assert_eq!(meta.last_fields, vec![100, 7]);
            assert_eq!(meta.deltas, vec![100 - 160, 7 - 3]);
        },
    }
}

#[test]
fn filter_is_inclusive_on_both_bounds() {
    let mut store = SampleStore::new();
    store.insert(sample(1000, 2000, vec![1]));
    store.insert(sample(999, 2000, vec![2]));
    store.insert(sample(1000, 2001, vec![3]));
    let q = spec(1000, 2000, 400, TimeInterval::Hour, 1, SortKey::StartTime);
    let rows = store.query_buckets(&q);
    assert_eq!(rows.len(), 1);
    assert_eq!(rows[0].fields, vec![1]);
}
