use midgard_history::model::Sample;
use midgard_history::store::SampleStore;
use midgard_history::sync::{run_sync, should_fetch, tick_plan, SyncPage};
use midgard_history::interval::TimeInterval;

fn sample(start: u64, end: u64, v: u64) -> Sample {
    Sample { start_time: start, end_time: end, fields: vec![v] }
}

#[test]
fn sync_consumes_two_pages_and_advances_watermark() {
    // Watermark 0, upstream yields two successive pages ending at 86400
    // and 172800, current time 200000: exactly two fetches, every sample
    // of both pages inserted, final watermark 172800.
    let mut store = SampleStore::new();
    let pages = vec![
        SyncPage {
            end_time: 86400,
            intervals: vec![sample(0, 43200, 1), sample(43200, 86400, 2)],
        },
        SyncPage {
            end_time: 172800,
            intervals: vec![sample(86400, 129600, 3), sample(129600, 172800, 4)],
        },
    ];
    let (fetches, watermark) = run_sync(&mut store, 0, pages, 200000);
    assert_eq!(fetches, 2);
    assert_eq!(watermark, 172800);
    assert_eq!(store.len(), 4);
    assert_eq!(store.get_last_end_time(), 172800);
}

#[test]
fn sync_stops_once_watermark_reaches_now() {
    // A page that reports an end time at or past `now` ends the loop;
    // later pages are not consumed.
    let mut store = SampleStore::new();
    let pages = vec![
        SyncPage { end_time: 250000, intervals: vec![sample(0, 250000, 1)] },
        SyncPage { end_time: 900000, intervals: vec![sample(250000, 900000, 2)] },
    ];
    let (fetches, watermark) = run_sync(&mut store, 0, pages, 200000);
    assert_eq!(fetches, 1);
    assert_eq!(watermark, 250000);
    assert_eq!(store.len(), 1);
}

#[test]
fn sync_with_caught_up_watermark_fetches_nothing() {
    let mut store = SampleStore::new();
    let pages = vec![SyncPage { end_time: 300000, intervals: vec![sample(0, 300000, 1)] }];
    let (fetches, watermark) = run_sync(&mut store, 200000, pages, 200000);
    assert_eq!(fetches, 0);
    assert_eq!(watermark, 200000);
    assert_eq!(store.len(), 0);
}

#[test]
fn fetch_decision_follows_watermark() {
    assert!(should_fetch(0, 200000));
    assert!(should_fetch(199999, 200000));
    assert!(!should_fetch(200000, 200000));
    assert!(!should_fetch(300000, 200000));
}

#[test]
fn scheduler_tick_resumes_from_watermark() {
    let plan = tick_plan(172800);
    assert_eq!(plan.from, 172800);
    assert_eq!(plan.count, 400);
    assert_eq!(plan.interval, TimeInterval::Hour);
}

#[test]
fn watermark_is_max_end_time() {
    let mut store = SampleStore::new();
    assert_eq!(store.get_last_end_time(), 0);
    store.insert(sample(0, 500, 1));
    store.insert(sample(900, 2000, 2));
    store.insert(sample(400, 800, 3));
    assert_eq!(store.get_last_end_time(), 2000);
}
