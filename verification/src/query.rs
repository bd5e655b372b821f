//! The query normalizer: turns raw, partially absent caller parameters
//! into a fully resolved, bounded query spec, and the per-domain catalog
//! of sortable fields that keeps unsanitized field names away from the
//! store's sort clause.

use vstd::prelude::*;
use crate::interval::{TimeInterval, interval_of_name, interval_seconds};

verus! {

/// One of the four tracked metric families.
#[derive(Clone, Copy, Debug, PartialEq, Eq, Structural)]
pub enum Domain {
    Depth,
    Earnings,
    Swaps,
    RunePool,
}

/// A resolved sort key: a time column or one of the domain's metric
/// columns, by index in the domain's declared order.
#[derive(Clone, Copy, Debug, PartialEq, Eq, Structural)]
pub enum SortKey {
    StartTime,
    EndTime,
    Metric(usize),
}

/// The largest count a caller may request per page.
pub const COUNT_LIMIT: i64 = 400;

/// The earliest epoch second any tracked domain has data for.
pub const EPOCH_FLOOR: i64 = 1648771200;

/// The latest epoch second the mirror accepts as a time bound.
pub const EPOCH_CEIL: i64 = 253402300799;

/// How many metric columns a domain's samples carry.
pub open spec fn spec_metric_columns(d: Domain) -> int {
    match d {
        Domain::Depth => 10,
        Domain::Earnings => 7,
        Domain::Swaps => 36,
        Domain::RunePool => 2,
    }
}

/// How many metric columns a domain's samples carry.
pub fn metric_columns(d: Domain) -> (r: usize)
    ensures
        r == spec_metric_columns(d),
{
    match d {
        Domain::Depth => 10,
        Domain::Earnings => 7,
        Domain::Swaps => 36,
        Domain::RunePool => 2,
    }
}

/// The sort key a field name denotes for the depth domain, if the name is
/// in its allow-list.
pub open spec fn depth_sort_key(s: Seq<char>) -> Option<SortKey> {
    if s == "startTime"@ {
        Some(SortKey::StartTime)
    } else if s == "endTime"@ {
        Some(SortKey::EndTime)
    } else if s == "assetDepth"@ {
        Some(SortKey::Metric(0))
    } else if s == "runeDepth"@ {
        Some(SortKey::Metric(1))
    } else if s == "assetPrice"@ {
        Some(SortKey::Metric(2))
    } else if s == "assetPriceUSD"@ {
        Some(SortKey::Metric(3))
    } else if s == "liquidityUnits"@ {
        Some(SortKey::Metric(4))
    } else if s == "membersCount"@ {
        Some(SortKey::Metric(5))
    } else if s == "synthUnits"@ {
        Some(SortKey::Metric(6))
    } else if s == "synthSupply"@ {
        Some(SortKey::Metric(7))
    } else if s == "units"@ {
        Some(SortKey::Metric(8))
    } else if s == "luvi"@ {
        Some(SortKey::Metric(9))
    } else {
        None
    }
}

/// The sort key a field name denotes for the earnings domain.
pub open spec fn earnings_sort_key(s: Seq<char>) -> Option<SortKey> {
    if s == "startTime"@ {
        Some(SortKey::StartTime)
    } else if s == "endTime"@ {
        Some(SortKey::EndTime)
    } else if s == "liquidityFees"@ {
        Some(SortKey::Metric(0))
    } else if s == "blockRewards"@ {
        Some(SortKey::Metric(1))
    } else if s == "earnings"@ {
        Some(SortKey::Metric(2))
    } else if s == "bondingEarnings"@ {
        Some(SortKey::Metric(3))
    } else if s == "liquidityEarnings"@ {
        Some(SortKey::Metric(4))
    } else if s == "avgNodeCount"@ {
        Some(SortKey::Metric(5))
    } else if s == "runePriceUSD"@ {
        Some(SortKey::Metric(6))
    } else {
        None
    }
}

/// The sort key a field name denotes for the swaps domain.
pub open spec fn swaps_sort_key(s: Seq<char>) -> Option<SortKey> {
    if s == "startTime"@ {
        Some(SortKey::StartTime)
    } else if s == "endTime"@ {
        Some(SortKey::EndTime)
    } else if s == "toAssetCount"@ {
        Some(SortKey::Metric(0))
    } else if s == "toRuneCount"@ {
        Some(SortKey::Metric(1))
    } else if s == "toTradeCount"@ {
        Some(SortKey::Metric(2))
    } else if s == "fromTradeCount"@ {
        Some(SortKey::Metric(3))
    } else if s == "synthMintCount"@ {
        Some(SortKey::Metric(4))
    } else if s == "synthRedeemCount"@ {
        Some(SortKey::Metric(5))
    } else if s == "totalCount"@ {
        Some(SortKey::Metric(6))
    } else if s == "toAssetVolume"@ {
        Some(SortKey::Metric(7))
    } else if s == "toRuneVolume"@ {
        Some(SortKey::Metric(8))
    } else if s == "toTradeVolume"@ {
        Some(SortKey::Metric(9))
    } else if s == "fromTradeVolume"@ {
        Some(SortKey::Metric(10))
    } else if s == "synthMintVolume"@ {
        Some(SortKey::Metric(11))
    } else if s == "synthRedeemVolume"@ {
        Some(SortKey::Metric(12))
    } else if s == "totalVolume"@ {
        Some(SortKey::Metric(13))
    } else if s == "toAssetVolumeUSD"@ {
        Some(SortKey::Metric(14))
    } else if s == "toRuneVolumeUSD"@ {
        Some(SortKey::Metric(15))
    } else if s == "toTradeVolumeUSD"@ {
        Some(SortKey::Metric(16))
    } else if s == "fromTradeVolumeUSD"@ {
        Some(SortKey::Metric(17))
    } else if s == "synthMintVolumeUSD"@ {
        Some(SortKey::Metric(18))
    } else if s == "synthRedeemVolumeUSD"@ {
        Some(SortKey::Metric(19))
    } else if s == "totalVolumeUSD"@ {
        Some(SortKey::Metric(20))
    } else if s == "toAssetFees"@ {
        Some(SortKey::Metric(21))
    } else if s == "toRuneFees"@ {
        Some(SortKey::Metric(22))
    } else if s == "toTradeFees"@ {
        Some(SortKey::Metric(23))
    } else if s == "fromTradeFees"@ {
        Some(SortKey::Metric(24))
    } else if s == "synthMintFees"@ {
        Some(SortKey::Metric(25))
    } else if s == "synthRedeemFees"@ {
        Some(SortKey::Metric(26))
    } else if s == "totalFees"@ {
        Some(SortKey::Metric(27))
    } else if s == "toAssetAverageSlip"@ {
        Some(SortKey::Metric(28))
    } else if s == "toRuneAverageSlip"@ {
        Some(SortKey::Metric(29))
    } else if s == "toTradeAverageSlip"@ {
        Some(SortKey::Metric(30))
    } else if s == "fromTradeAverageSlip"@ {
        Some(SortKey::Metric(31))
    } else if s == "synthMintAverageSlip"@ {
        Some(SortKey::Metric(32))
    } else if s == "synthRedeemAverageSlip"@ {
        Some(SortKey::Metric(33))
    } else if s == "averageSlip"@ {
        Some(SortKey::Metric(34))
    } else if s == "runePriceUSD"@ {
        Some(SortKey::Metric(35))
    } else {
        None
    }
}

/// The sort key a field name denotes for the stake-pool participation
/// domain.
pub open spec fn rune_pool_sort_key(s: Seq<char>) -> Option<SortKey> {
    if s == "startTime"@ {
        Some(SortKey::StartTime)
    } else if s == "endTime"@ {
        Some(SortKey::EndTime)
    } else if s == "count"@ {
        Some(SortKey::Metric(0))
    } else if s == "units"@ {
        Some(SortKey::Metric(1))
    } else {
        None
    }
}

/// The sort key a field name denotes for a domain: `Some` exactly when
/// the name is in that domain's allow-list.
pub open spec fn sort_key_of(d: Domain, s: Seq<char>) -> Option<SortKey> {
    match d {
        Domain::Depth => depth_sort_key(s),
        Domain::Earnings => earnings_sort_key(s),
        Domain::Swaps => swaps_sort_key(s),
        Domain::RunePool => rune_pool_sort_key(s),
    }
}

/// Whether a field name is in the domain's sortable allow-list.
pub open spec fn spec_has_field(d: Domain, s: Seq<char>) -> bool {
    sort_key_of(d, s) is Some
}

/// Compares two strings for character equality.
fn str_eq(a: &str, b: &str) -> (r: bool)
    ensures
        r == (a@ == b@),
{
    let n = a.unicode_len();
    let m = b.unicode_len();
    if n != m {
        return false;
    }
    let mut i: usize = 0;
    while i < n
        invariant
            n == a@.len(),
            n == b@.len(),
            0 <= i <= n,
            forall|j: int| 0 <= j < i ==> a@[j] == b@[j],
        decreases n - i,
    {
        if a.get_char(i) != b.get_char(i) {
            return false;
        }
        i = i + 1;
    }
    proof {
        assert(a@ =~= b@);
    }
    true
}

/// Resolves a field name to the domain's sort key, if allow-listed.
pub fn sort_key_for(d: Domain, name: &str) -> (r: Option<SortKey>)
    ensures
        r == sort_key_of(d, name@),
{
    match d {
        Domain::Depth => {
            if str_eq(name, "startTime") {
                Some(SortKey::StartTime)
            } else if str_eq(name, "endTime") {
                Some(SortKey::EndTime)
            } else if str_eq(name, "assetDepth") {
                Some(SortKey::Metric(0))
            } else if str_eq(name, "runeDepth") {
                Some(SortKey::Metric(1))
            } else if str_eq(name, "assetPrice") {
                Some(SortKey::Metric(2))
            } else if str_eq(name, "assetPriceUSD") {
                Some(SortKey::Metric(3))
            } else if str_eq(name, "liquidityUnits") {
                Some(SortKey::Metric(4))
            } else if str_eq(name, "membersCount") {
                Some(SortKey::Metric(5))
            } else if str_eq(name, "synthUnits") {
                Some(SortKey::Metric(6))
            } else if str_eq(name, "synthSupply") {
                Some(SortKey::Metric(7))
            } else if str_eq(name, "units") {
                Some(SortKey::Metric(8))
            } else if str_eq(name, "luvi") {
                Some(SortKey::Metric(9))
            } else {
                None
            }
        },
        Domain::Earnings => {
            if str_eq(name, "startTime") {
                Some(SortKey::StartTime)
            } else if str_eq(name, "endTime") {
                Some(SortKey::EndTime)
            } else if str_eq(name, "liquidityFees") {
                Some(SortKey::Metric(0))
            } else if str_eq(name, "blockRewards") {
                Some(SortKey::Metric(1))
            } else if str_eq(name, "earnings") {
                Some(SortKey::Metric(2))
            } else if str_eq(name, "bondingEarnings") {
                Some(SortKey::Metric(3))
            } else if str_eq(name, "liquidityEarnings") {
                Some(SortKey::Metric(4))
            } else if str_eq(name, "avgNodeCount") {
                Some(SortKey::Metric(5))
            } else if str_eq(name, "runePriceUSD") {
                Some(SortKey::Metric(6))
            } else {
                None
            }
        },
        Domain::Swaps => {
            if str_eq(name, "startTime") {
                Some(SortKey::StartTime)
            } else if str_eq(name, "endTime") {
                Some(SortKey::EndTime)
            } else if str_eq(name, "toAssetCount") {
                Some(SortKey::Metric(0))
            } else if str_eq(name, "toRuneCount") {
                Some(SortKey::Metric(1))
            } else if str_eq(name, "toTradeCount") {
                Some(SortKey::Metric(2))
            } else if str_eq(name, "fromTradeCount") {
                Some(SortKey::Metric(3))
            } else if str_eq(name, "synthMintCount") {
                Some(SortKey::Metric(4))
            } else if str_eq(name, "synthRedeemCount") {
                Some(SortKey::Metric(5))
            } else if str_eq(name, "totalCount") {
                Some(SortKey::Metric(6))
            } else if str_eq(name, "toAssetVolume") {
                Some(SortKey::Metric(7))
            } else if str_eq(name, "toRuneVolume") {
                Some(SortKey::Metric(8))
            } else if str_eq(name, "toTradeVolume") {
                Some(SortKey::Metric(9))
            } else if str_eq(name, "fromTradeVolume") {
                Some(SortKey::Metric(10))
            } else if str_eq(name, "synthMintVolume") {
                Some(SortKey::Metric(11))
            } else if str_eq(name, "synthRedeemVolume") {
                Some(SortKey::Metric(12))
            } else if str_eq(name, "totalVolume") {
                Some(SortKey::Metric(13))
            } else if str_eq(name, "toAssetVolumeUSD") {
                Some(SortKey::Metric(14))
            } else if str_eq(name, "toRuneVolumeUSD") {
                Some(SortKey::Metric(15))
            } else if str_eq(name, "toTradeVolumeUSD") {
                Some(SortKey::Metric(16))
            } else if str_eq(name, "fromTradeVolumeUSD") {
                Some(SortKey::Metric(17))
            } else if str_eq(name, "synthMintVolumeUSD") {
                Some(SortKey::Metric(18))
            } else if str_eq(name, "synthRedeemVolumeUSD") {
                Some(SortKey::Metric(19))
            } else if str_eq(name, "totalVolumeUSD") {
                Some(SortKey::Metric(20))
            } else if str_eq(name, "toAssetFees") {
                Some(SortKey::Metric(21))
            } else if str_eq(name, "toRuneFees") {
                Some(SortKey::Metric(22))
            } else if str_eq(name, "toTradeFees") {
                Some(SortKey::Metric(23))
            } else if str_eq(name, "fromTradeFees") {
                Some(SortKey::Metric(24))
            } else if str_eq(name, "synthMintFees") {
                Some(SortKey::Metric(25))
            } else if str_eq(name, "synthRedeemFees") {
                Some(SortKey::Metric(26))
            } else if str_eq(name, "totalFees") {
                Some(SortKey::Metric(27))
            } else if str_eq(name, "toAssetAverageSlip") {
                Some(SortKey::Metric(28))
            } else if str_eq(name, "toRuneAverageSlip") {
                Some(SortKey::Metric(29))
            } else if str_eq(name, "toTradeAverageSlip") {
                Some(SortKey::Metric(30))
            } else if str_eq(name, "fromTradeAverageSlip") {
                Some(SortKey::Metric(31))
            } else if str_eq(name, "synthMintAverageSlip") {
                Some(SortKey::Metric(32))
            } else if str_eq(name, "synthRedeemAverageSlip") {
                Some(SortKey::Metric(33))
            } else if str_eq(name, "averageSlip") {
                Some(SortKey::Metric(34))
            } else if str_eq(name, "runePriceUSD") {
                Some(SortKey::Metric(35))
            } else {
                None
            }
        },
        Domain::RunePool => {
            if str_eq(name, "startTime") {
                Some(SortKey::StartTime)
            } else if str_eq(name, "endTime") {
                Some(SortKey::EndTime)
            } else if str_eq(name, "count") {
                Some(SortKey::Metric(0))
            } else if str_eq(name, "units") {
                Some(SortKey::Metric(1))
            } else {
                None
            }
        },
    }
}

/// Whether a field name is in the domain's sortable allow-list.
pub fn has_field(d: Domain, name: &str) -> (r: bool)
    ensures
        r == spec_has_field(d, name@),
{
    sort_key_for(d, name).is_some()
}

/// An allow-listed metric key always indexes an existing column.
pub proof fn lemma_sort_key_in_range(d: Domain, s: Seq<char>)
    ensures
        match sort_key_of(d, s) {
            Some(SortKey::Metric(i)) => i < spec_metric_columns(d),
            _ => true,
        },
{
}

/// Raw caller parameters, all optional, as the request layer hands them
/// over.
pub struct QueryParameters {
    pub from: Option<i64>,
    pub count: Option<i64>,
    pub interval: Option<String>,
    pub to: Option<i64>,
    pub pool: Option<String>,
    pub page: Option<i64>,
    pub sort_by: Option<String>,
}

/// A fully resolved query spec: every field bounded and valid for the
/// domain it was resolved against.
pub struct QuerySpec {
    pub from: u64,
    pub to: u64,
    pub count: u64,
    pub interval: TimeInterval,
    pub page: i64,
    pub sort_key: SortKey,
    pub sort_by: String,
    pub pool: String,
}

/// The character sequence of an optional string parameter.
pub open spec fn opt_chars(o: Option<String>) -> Option<Seq<char>> {
    match o {
        Some(s) => Some(s@),
        None => None,
    }
}

/// Resolution of `interval`: the named interval, or `year` when the text
/// is absent or unrecognized.
pub open spec fn resolve_interval(o: Option<Seq<char>>) -> TimeInterval {
    match o {
        Some(s) => match interval_of_name(s) {
            Some(i) => i,
            None => TimeInterval::Year,
        },
        None => TimeInterval::Year,
    }
}

/// Resolution of `count`: the supplied value when it lies in
/// `(0, COUNT_LIMIT]`, else the default `COUNT_LIMIT`.
pub open spec fn resolve_count(o: Option<int>) -> int {
    match o {
        Some(c) => if 0 < c <= COUNT_LIMIT {
            c
        } else {
            COUNT_LIMIT as int
        },
        None => COUNT_LIMIT as int,
    }
}

/// Resolution of `page`: the supplied value or 1; pages are 1-indexed.
pub open spec fn resolve_page(o: Option<int>) -> int {
    match o {
        Some(p) => p,
        None => 1,
    }
}

/// Resolution of `sortBy` to a key: the supplied field when it is in the
/// domain's allow-list, else the `startTime` column.
pub open spec fn resolve_sort_key(d: Domain, o: Option<Seq<char>>) -> SortKey {
    match o {
        Some(s) => match sort_key_of(d, s) {
            Some(k) => k,
            None => SortKey::StartTime,
        },
        None => SortKey::StartTime,
    }
}

/// Resolution of `sortBy` as a name: the supplied field when allow-listed,
/// else `"startTime"`.
pub open spec fn resolve_sort_name(d: Domain, o: Option<Seq<char>>) -> Seq<char> {
    match o {
        Some(s) => if sort_key_of(d, s) is Some {
            s
        } else {
            "startTime"@
        },
        None => "startTime"@,
    }
}

/// Resolution of `pool`: the supplied value or the fixed single-pool
/// default.
pub open spec fn resolve_pool(o: Option<Seq<char>>) -> Seq<char> {
    match o {
        Some(s) => s,
        None => "BTC.BTC"@,
    }
}

/// Resolution of `to`: the supplied value, else the current wall-clock
/// time, clamped into the valid timestamp range
/// `(EPOCH_FLOOR, EPOCH_CEIL]`.
pub open spec fn resolve_to(o: Option<int>, now: int) -> int {
    let t = match o {
        Some(t) => t,
        None => now,
    };
    if t <= EPOCH_FLOOR {
        EPOCH_FLOOR + 1
    } else if t > EPOCH_CEIL {
        EPOCH_CEIL as int
    } else {
        t
    }
}

/// Resolution of `from`: the supplied value when it is a sane lower bound
/// below the resolved `to` (negative values degrade to 0); otherwise
/// derived as `to - count * interval_seconds`, clamped to not precede the
/// domain's earliest known epoch.
pub open spec fn resolve_from(o: Option<int>, to: int, count: int, iv: int) -> int {
    let derived = if to - count * iv >= EPOCH_FLOOR {
        to - count * iv
    } else {
        EPOCH_FLOOR as int
    };
    match o {
        Some(f) => if f < 0 {
            0
        } else if f < to {
            f
        } else {
            derived
        },
        None => derived,
    }
}

impl QueryParameters {
    /// Builds raw parameters from plain optional values.
    pub fn new(
        from: Option<i64>,
        count: Option<i64>,
        interval: Option<String>,
        to: Option<i64>,
        pool: Option<String>,
        page: Option<i64>,
        sort_by: Option<String>,
    ) -> (r: QueryParameters)
        ensures
            r.from == from,
            r.count == count,
            r.interval == interval,
            r.to == to,
            r.pool == pool,
            r.page == page,
            r.sort_by == sort_by,
    {
        QueryParameters { from, count, interval, to, pool, page, sort_by }
    }

    /// Normalizes raw caller parameters into a fully resolved query spec.
    ///
    /// Total: every combination of present and absent fields resolves;
    /// invalid inputs degrade to defaults and never to an error. The
    /// result always satisfies `0 < count <= COUNT_LIMIT`, a sort key in
    /// the domain's allow-list, and `from < to`.
    pub fn process_query_parameters(&self, domain: Domain, now: i64) -> (r: QuerySpec)
        ensures
            r.interval == resolve_interval(opt_chars(self.interval)),
            r.count == resolve_count(
                match self.count {
                    Some(c) => Some(c as int),
                    None => None,
                },
            ),
            r.page == resolve_page(
                match self.page {
                    Some(p) => Some(p as int),
                    None => None,
                },
            ),
            r.sort_key == resolve_sort_key(domain, opt_chars(self.sort_by)),
            r.sort_by@ == resolve_sort_name(domain, opt_chars(self.sort_by)),
            r.pool@ == resolve_pool(opt_chars(self.pool)),
            r.to == resolve_to(
                match self.to {
                    Some(t) => Some(t as int),
                    None => None,
                },
                now as int,
            ),
            r.from == resolve_from(
                match self.from {
                    Some(f) => Some(f as int),
                    None => None,
                },
                r.to as int,
                r.count as int,
                interval_seconds(r.interval),
            ),
            0 < r.count <= COUNT_LIMIT,
            sort_key_of(domain, r.sort_by@) == Some(r.sort_key),
            r.from < r.to,
            r.to <= EPOCH_CEIL,
    {
        let count: i64 = match self.count {
            Some(c) => if 0 < c && c <= COUNT_LIMIT {
                c
            } else {
                COUNT_LIMIT
            },
            None => COUNT_LIMIT,
        };

        let interval: TimeInterval = match &self.interval {
            Some(text) => match TimeInterval::from_str(text.as_str()) {
                Some(i) => i,
                None => TimeInterval::Year,
            },
            None => TimeInterval::Year,
        };

        let page: i64 = match self.page {
            Some(p) => p,
            None => 1,
        };

        let (sort_key, sort_by): (SortKey, String) = match &self.sort_by {
            Some(name) => match sort_key_for(domain, name.as_str()) {
                Some(k) => (k, name.clone()),
                None => (SortKey::StartTime, "startTime".to_owned()),
            },
            None => (SortKey::StartTime, "startTime".to_owned()),
        };
        proof {
            reveal_strlit("startTime");
        }

        let pool: String = match &self.pool {
            Some(p) => p.clone(),
            None => "BTC.BTC".to_owned(),
        };

        let to_raw: i64 = match self.to {
            Some(t) => t,
            None => now,
        };
        let to: i64 = if to_raw <= EPOCH_FLOOR {
            EPOCH_FLOOR + 1
        } else if to_raw > EPOCH_CEIL {
            EPOCH_CEIL
        } else {
            to_raw
        };

        let iv: i64 = interval.as_seconds();
        assert(count * iv <= COUNT_LIMIT * 31822400) by (nonlinear_arith)
            requires
                0 < count <= COUNT_LIMIT,
                0 < iv <= 31822400,
        {}
        assert(count * iv > 0) by (nonlinear_arith)
            requires
                0 < count,
                0 < iv,
        {}
        let span: i64 = count * iv;
        let derived: i64 = if to - span >= EPOCH_FLOOR {
            to - span
        } else {
            EPOCH_FLOOR
        };
        let from: i64 = match self.from {
            Some(f) => if f < 0 {
                0
            } else if f < to {
                f
            } else {
                derived
            },
            None => derived,
        };

        QuerySpec {
            from: from as u64,
            to: to as u64,
            count: count as u64,
            interval,
            page,
            sort_key,
            sort_by,
            pool,
        }
    }
}

} // verus!
