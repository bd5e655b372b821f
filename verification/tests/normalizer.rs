use midgard_history::interval::TimeInterval;
use midgard_history::query::{Domain, QueryParameters, SortKey, COUNT_LIMIT, EPOCH_FLOOR};
use midgard_history::clock::process_query_parameters_now;

fn empty_params() -> QueryParameters {
    QueryParameters::new(None, None, None, None, None, None, None)
}

const NOW: i64 = 1729944000;

#[test]
fn normalizer_all_absent() {
    let spec = empty_params().process_query_parameters(Domain::Depth, NOW);
    assert_eq!(spec.count, 400);
    assert_eq!(spec.interval, TimeInterval::Year);
    assert_eq!(spec.page, 1);
    assert_eq!(spec.sort_key, SortKey::StartTime);
    assert_eq!(spec.sort_by, "startTime");
    assert_eq!(spec.pool, "BTC.BTC");
    assert_eq!(spec.to, NOW as u64);
    assert!(spec.from < spec.to);
}

#[test]
fn normalizer_all_present() {
    let params = QueryParameters::new(
        Some(1700000000),
        Some(10),
        Some(String::from("day")),
        Some(1700864000),
        Some(String::from("ETH.ETH")),
        Some(3),
        Some(String::from("assetDepth")),
    );
    let spec = params.process_query_parameters(Domain::Depth, NOW);
    assert_eq!(spec.from, 1700000000);
    assert_eq!(spec.to, 1700864000);
    assert_eq!(spec.count, 10);
    assert_eq!(spec.interval, TimeInterval::Day);
    assert_eq!(spec.page, 3);
    assert_eq!(spec.sort_key, SortKey::Metric(0));
    assert_eq!(spec.sort_by, "assetDepth");
    assert_eq!(spec.pool, "ETH.ETH");
}

#[test]
fn normalizer_total_over_field_combinations() {
    // Every combination of present/absent optional fields resolves to a
    // bounded spec with from < to.
    for mask in 0..128u32 {
        let params = QueryParameters::new(
            if mask & 1 != 0 { Some(-99) } else { None },
            if mask & 2 != 0 { Some(100000) } else { None },
            if mask & 4 != 0 { Some(String::from("nonsense")) } else { None },
            if mask & 8 != 0 { Some(-5) } else { None },
            if mask & 16 != 0 { Some(String::from("")) } else { None },
            if mask & 32 != 0 { Some(0) } else { None },
            if mask & 64 != 0 { Some(String::from("; DROP")) } else { None },
        );
        let spec = params.process_query_parameters(Domain::Swaps, NOW);
        assert!(spec.count > 0 && spec.count <= COUNT_LIMIT as u64);
        assert!(spec.from < spec.to);
        assert_eq!(spec.sort_by, "startTime");
    }
}

#[test]
fn normalizer_substitutes_unlisted_sort_field() {
    // An unsanitized field name never reaches the sort clause.
    let params = QueryParameters::new(
        None,
        None,
        None,
        None,
        None,
        None,
        Some(String::from("; DROP")),
    );
    let spec = params.process_query_parameters(Domain::Depth, NOW);
    assert_eq!(spec.sort_by, "startTime");
    assert_eq!(spec.sort_key, SortKey::StartTime);
}

#[test]
fn normalizer_keeps_listed_sort_field() {
    let params = QueryParameters::new(
        None,
        None,
        None,
        None,
        None,
        None,
        Some(String::from("runePriceUSD")),
    );
    let spec = params.process_query_parameters(Domain::Swaps, NOW);
    assert_eq!(spec.sort_by, "runePriceUSD");
    assert_eq!(spec.sort_key, SortKey::Metric(35));
    let depth_spec = params.process_query_parameters(Domain::Depth, NOW);
    assert_eq!(depth_spec.sort_by, "startTime");
}

#[test]
fn normalizer_clamps_count_above_limit() {
    let params = QueryParameters::new(None, Some(500), None, None, None, None, None);
    let spec = params.process_query_parameters(Domain::Depth, NOW);
    assert_eq!(spec.count, 400);
}

#[test]
fn normalizer_clamps_negative_count() {
    let params = QueryParameters::new(None, Some(-5), None, None, None, None, None);
    let spec = params.process_query_parameters(Domain::Depth, NOW);
    assert_eq!(spec.count, 400);
}

#[test]
fn normalizer_zero_count_and_boundaries() {
    let zero = QueryParameters::new(None, Some(0), None, None, None, None, None);
    assert_eq!(zero.process_query_parameters(Domain::Depth, NOW).count, 400);
    let one = QueryParameters::new(None, Some(1), None, None, None, None, None);
    assert_eq!(one.process_query_parameters(Domain::Depth, NOW).count, 1);
    let limit = QueryParameters::new(None, Some(400), None, None, None, None, None);
    assert_eq!(limit.process_query_parameters(Domain::Depth, NOW).count, 400);
}

#[test]
fn normalizer_unparsable_interval_defaults_to_year() {
    let params =
        QueryParameters::new(None, None, Some(String::from("eon")), None, None, None, None);
    let spec = params.process_query_parameters(Domain::Depth, NOW);
    assert_eq!(spec.interval, TimeInterval::Year);
}

#[test]
fn normalizer_derives_from_when_absent() {
    let params = QueryParameters::new(
        None,
        Some(2),
        Some(String::from("hour")),
        Some(1729944000),
        None,
        None,
        None,
    );
    let spec = params.process_query_parameters(Domain::Depth, NOW);
    assert_eq!(spec.to, 1729944000);
    assert_eq!(spec.from, 1729944000 - 2 * 3600);
}

#[test]
fn normalizer_clamps_derived_from_to_epoch_floor() {
    let params = QueryParameters::new(
        None,
        Some(400),
        Some(String::from("year")),
        Some(EPOCH_FLOOR + 10),
        None,
        None,
        None,
    );
    let spec = params.process_query_parameters(Domain::Depth, NOW);
    assert_eq!(spec.from, EPOCH_FLOOR as u64);
    assert!(spec.from < spec.to);
}

#[test]
fn normalizer_rejects_inverted_range() {
    // A supplied lower bound at or past the upper bound degrades to the
    // derived one.
    let params = QueryParameters::new(
        Some(1729944000),
        Some(1),
        Some(String::from("hour")),
        Some(1729940000),
        None,
        None,
        None,
    );
    let spec = params.process_query_parameters(Domain::Depth, NOW);
    assert!(spec.from < spec.to);
    assert_eq!(spec.to, 1729940000);
    assert_eq!(spec.from, 1729940000 - 3600);
}

#[test]
fn normalizer_against_wall_clock() {
    // The wall-clock entry must produce a bounded, ordered range even
    // with every field absent.
    let spec = process_query_parameters_now(&empty_params(), Domain::RunePool);
    assert!(spec.from < spec.to);
    assert!(spec.to > EPOCH_FLOOR as u64);
    assert_eq!(spec.count, 400);
}
