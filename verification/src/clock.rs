//! The wall clock: the one point where the library consults the outside
//! world, and the normalizer entry that uses it.

use vstd::prelude::*;
use crate::query::{
    QueryParameters, QuerySpec, Domain, resolve_interval, resolve_count, resolve_page,
    resolve_sort_key, resolve_sort_name, resolve_pool, resolve_to, resolve_from, opt_chars,
    sort_key_of, COUNT_LIMIT, EPOCH_FLOOR, EPOCH_CEIL,
};
use crate::interval::interval_seconds;

verus! {

/// Relies on chrono's `Utc::now` and `DateTime::timestamp`: the current
/// wall-clock time in whole epoch seconds. Whenever the call returns,
/// the value is nonnegative: chrono panics on a pre-epoch or
/// out-of-range system clock rather than returning one.
#[verifier::external_body]
pub(crate) fn now_epoch_seconds() -> (r: i64)
    ensures
        r >= 0,
{
    chrono::Utc::now().timestamp()
}

/// Normalizes raw caller parameters against the current wall clock.
///
/// Every resolution except an absent `to` is a function of the inputs
/// alone and is stated exactly; an absent `to` resolves to the clock
/// reading, of which only the valid timestamp range is promised.
pub fn process_query_parameters_now(params: &QueryParameters, domain: Domain) -> (r: QuerySpec)
    ensures
        r.interval == resolve_interval(opt_chars(params.interval)),
        r.count == resolve_count(
            match params.count {
                Some(c) => Some(c as int),
                None => None,
            },
        ),
        r.page == resolve_page(
            match params.page {
                Some(p) => Some(p as int),
                None => None,
            },
        ),
        r.sort_key == resolve_sort_key(domain, opt_chars(params.sort_by)),
        r.sort_by@ == resolve_sort_name(domain, opt_chars(params.sort_by)),
        r.pool@ == resolve_pool(opt_chars(params.pool)),
        match params.to {
            Some(t) => r.to == resolve_to(Some(t as int), 0),
            None => EPOCH_FLOOR < r.to <= EPOCH_CEIL,
        },
        r.from == resolve_from(
            match params.from {
                Some(f) => Some(f as int),
                None => None,
            },
            r.to as int,
            r.count as int,
            interval_seconds(r.interval),
        ),
        0 < r.count <= COUNT_LIMIT,
        sort_key_of(domain, r.sort_by@) == Some(r.sort_key),
        r.from < r.to,
{
    let now = now_epoch_seconds();
    params.process_query_parameters(domain, now)
}

} // verus!
