//! The interval catalog: the time granularities a caller may request and
//! the fixed number of seconds each one spans.
//!
//! The canonical seconds table is: hour = 3600, day = 86400, week = 604800,
//! month = 2678400 (31 days), quarter = 7948800 (92 days), year = 31822400.
//! Interval names are matched case-insensitively (ASCII case folding).

use vstd::prelude::*;

verus! {

#[derive(Clone, Copy, Debug, PartialEq, Eq, Structural)]
pub enum TimeInterval {
    Hour,
    Day,
    Week,
    Month,
    Quarter,
    Year,
}

/// The number of seconds an interval spans, as the catalog fixes it.
pub open spec fn interval_seconds(i: TimeInterval) -> int {
    match i {
        TimeInterval::Hour => 3600,
        TimeInterval::Day => 86400,
        TimeInterval::Week => 604800,
        TimeInterval::Month => 2678400,
        TimeInterval::Quarter => 7948800,
        TimeInterval::Year => 31822400,
    }
}

/// A caller-supplied character matches a lowercase catalog character when
/// they are equal outright or differ only by ASCII case.
pub open spec fn char_matches_ci(c: char, lower: char) -> bool {
    c == lower || (65 <= c as int <= 90 && c as int + 32 == lower as int)
}

/// A caller-supplied name matches a lowercase catalog name when they have
/// the same length and agree at every position up to ASCII case.
pub open spec fn name_matches_ci(s: Seq<char>, lower: Seq<char>) -> bool {
    s.len() == lower.len() && forall|i: int|
        0 <= i < s.len() ==> #[trigger] char_matches_ci(s[i], lower[i])
}

/// The interval a textual name denotes, if any.
pub open spec fn interval_of_name(s: Seq<char>) -> Option<TimeInterval> {
    if name_matches_ci(s, "hour"@) {
        Some(TimeInterval::Hour)
    } else if name_matches_ci(s, "day"@) {
        Some(TimeInterval::Day)
    } else if name_matches_ci(s, "week"@) {
        Some(TimeInterval::Week)
    } else if name_matches_ci(s, "month"@) {
        Some(TimeInterval::Month)
    } else if name_matches_ci(s, "quarter"@) {
        Some(TimeInterval::Quarter)
    } else if name_matches_ci(s, "year"@) {
        Some(TimeInterval::Year)
    } else {
        None
    }
}

/// The canonical lowercase name of an interval.
pub open spec fn name_of_interval(i: TimeInterval) -> Seq<char> {
    match i {
        TimeInterval::Hour => "hour"@,
        TimeInterval::Day => "day"@,
        TimeInterval::Week => "week"@,
        TimeInterval::Month => "month"@,
        TimeInterval::Quarter => "quarter"@,
        TimeInterval::Year => "year"@,
    }
}

/// Compares a caller-supplied name against a lowercase catalog name,
/// folding ASCII case on the caller's side.
fn eq_ignore_ascii_case(s: &str, lower: &str) -> (r: bool)
    ensures
        r == name_matches_ci(s@, lower@),
{
    let n = s.unicode_len();
    let m = lower.unicode_len();
    if n != m {
        return false;
    }
    let mut i: usize = 0;
    while i < n
        invariant
            n == s@.len(),
            n == lower@.len(),
            0 <= i <= n,
            forall|j: int| 0 <= j < i ==> #[trigger] char_matches_ci(s@[j], lower@[j]),
        decreases n - i,
    {
        let c = s.get_char(i);
        let l = lower.get_char(i);
        let cu = c as u32;
        let lu = l as u32;
        if !(cu == lu || (65 <= cu && cu <= 90 && cu + 32 == lu)) {
            assert(!char_matches_ci(s@[i as int], lower@[i as int]));
            return false;
        }
        assert(char_matches_ci(s@[i as int], lower@[i as int]));
        i = i + 1;
    }
    true
}

impl TimeInterval {
    /// The seconds table of the catalog; every entry is positive.
    pub fn as_seconds(&self) -> (r: i64)
        ensures
            r == interval_seconds(*self),
            r > 0,
    {
        match self {
            TimeInterval::Hour => 3600,
            TimeInterval::Day => 86400,
            TimeInterval::Week => 604800,
            TimeInterval::Month => 2678400,
            TimeInterval::Quarter => 7948800,
            TimeInterval::Year => 31822400,
        }
    }

    /// Decodes a textual interval name, case-insensitively; unrecognized
    /// text yields `None` and the caller supplies its fallback.
    pub fn from_str(interval: &str) -> (r: Option<TimeInterval>)
        ensures
            r == interval_of_name(interval@),
    {
        if eq_ignore_ascii_case(interval, "hour") {
            Some(TimeInterval::Hour)
        } else if eq_ignore_ascii_case(interval, "day") {
            Some(TimeInterval::Day)
        } else if eq_ignore_ascii_case(interval, "week") {
            Some(TimeInterval::Week)
        } else if eq_ignore_ascii_case(interval, "month") {
            Some(TimeInterval::Month)
        } else if eq_ignore_ascii_case(interval, "quarter") {
            Some(TimeInterval::Quarter)
        } else if eq_ignore_ascii_case(interval, "year") {
            Some(TimeInterval::Year)
        } else {
            None
        }
    }

    /// The canonical lowercase name of the interval.
    pub fn to_str(&self) -> (r: &'static str)
        ensures
            r@ == name_of_interval(*self),
    {
        match self {
            TimeInterval::Hour => "hour",
            TimeInterval::Day => "day",
            TimeInterval::Week => "week",
            TimeInterval::Month => "month",
            TimeInterval::Quarter => "quarter",
            TimeInterval::Year => "year",
        }
    }
}

/// Decoding an interval's own canonical name gives that interval back.
pub proof fn lemma_interval_name_roundtrip(i: TimeInterval)
    ensures
        interval_of_name(name_of_interval(i)) == Some(i),
{
    reveal_strlit("hour");
    reveal_strlit("day");
    reveal_strlit("week");
    reveal_strlit("month");
    reveal_strlit("quarter");
    reveal_strlit("year");
    assert forall|s: Seq<char>| name_matches_ci(s, s) by {
        assert(forall|j: int| 0 <= j < s.len() ==> #[trigger] char_matches_ci(s[j], s[j]));
    }
    match i {
        TimeInterval::Hour => {
            assert(name_matches_ci("hour"@, "hour"@));
        },
        TimeInterval::Day => {
            assert(name_matches_ci("day"@, "day"@));
        },
        TimeInterval::Week => {
            assert(!name_matches_ci("week"@, "hour"@)) by {
                assert(!char_matches_ci("week"@[0], "hour"@[0]));
            }
            assert(name_matches_ci("week"@, "week"@));
        },
        TimeInterval::Month => {
            assert(name_matches_ci("month"@, "month"@));
        },
        TimeInterval::Quarter => {
            assert(name_matches_ci("quarter"@, "quarter"@));
        },
        TimeInterval::Year => {
            assert(!name_matches_ci("year"@, "hour"@)) by {
                assert(!char_matches_ci("year"@[0], "hour"@[0]));
            }
            assert(!name_matches_ci("year"@, "week"@)) by {
                assert(!char_matches_ci("year"@[0], "week"@[0]));
            }
            assert(name_matches_ci("year"@, "year"@));
        },
    }
}

} // verus!
