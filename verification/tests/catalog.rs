use midgard_history::interval::TimeInterval;

#[test]
fn interval_seconds_positive_and_stable() {
    let all = [
        TimeInterval::Hour,
        TimeInterval::Day,
        TimeInterval::Week,
        TimeInterval::Month,
        TimeInterval::Quarter,
        TimeInterval::Year,
    ];
    for i in all {
        let first = i.as_seconds();
        let second = i.as_seconds();
        assert!(first > 0);
        assert_eq!(first, second);
    }
}

#[test]
fn interval_seconds_table() {
    assert_eq!(TimeInterval::Hour.as_seconds(), 3600);
    assert_eq!(TimeInterval::Day.as_seconds(), 86400);
    assert_eq!(TimeInterval::Week.as_seconds(), 604800);
    assert_eq!(TimeInterval::Month.as_seconds(), 2678400);
    assert_eq!(TimeInterval::Quarter.as_seconds(), 7948800);
    assert_eq!(TimeInterval::Year.as_seconds(), 31822400);
}

#[test]
fn interval_from_str_lowercase() {
    assert_eq!(TimeInterval::from_str("hour"), Some(TimeInterval::Hour));
    assert_eq!(TimeInterval::from_str("day"), Some(TimeInterval::Day));
    assert_eq!(TimeInterval::from_str("week"), Some(TimeInterval::Week));
    assert_eq!(TimeInterval::from_str("month"), Some(TimeInterval::Month));
    assert_eq!(TimeInterval::from_str("quarter"), Some(TimeInterval::Quarter));
    assert_eq!(TimeInterval::from_str("year"), Some(TimeInterval::Year));
}

#[test]
fn interval_from_str_case_insensitive() {
    assert_eq!(TimeInterval::from_str("Hour"), Some(TimeInterval::Hour));
    assert_eq!(TimeInterval::from_str("DAY"), Some(TimeInterval::Day));
    assert_eq!(TimeInterval::from_str("WeEk"), Some(TimeInterval::Week));
    assert_eq!(TimeInterval::from_str("QUARTER"), Some(TimeInterval::Quarter));
}

#[test]
fn interval_from_str_rejects_unknown() {
    assert_eq!(TimeInterval::from_str(""), None);
    assert_eq!(TimeInterval::from_str("fortnight"), None);
    assert_eq!(TimeInterval::from_str("hours"), None);
    assert_eq!(TimeInterval::from_str("yea"), None);
}

#[test]
fn interval_to_str_names() {
    assert_eq!(TimeInterval::Hour.to_str(), "hour");
    assert_eq!(TimeInterval::Day.to_str(), "day");
    assert_eq!(TimeInterval::Week.to_str(), "week");
    assert_eq!(TimeInterval::Month.to_str(), "month");
    assert_eq!(TimeInterval::Quarter.to_str(), "quarter");
    assert_eq!(TimeInterval::Year.to_str(), "year");
}

#[test]
fn interval_name_roundtrip() {
    for i in [
        TimeInterval::Hour,
        TimeInterval::Day,
        TimeInterval::Week,
        TimeInterval::Month,
        TimeInterval::Quarter,
        TimeInterval::Year,
    ] {
        assert_eq!(TimeInterval::from_str(i.to_str()), Some(i));
    }
}
