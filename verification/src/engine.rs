//! The bucketing query engine: range filter, chronological sort, the
//! interval fold into buckets, pagination, display re-sort, and the
//! derived summary record.
//!
//! Every step is specified as a function on sequences of records; the
//! executable pipeline returns exactly what the specification folds.

use vstd::prelude::*;
use vstd::relations::sorted_by;
use vstd::multiset::Multiset;
use vstd::seq_lib::lemma_multiset_commutative;
use vstd::seq_lib::group_to_multiset_ensures;
use vstd::arithmetic::div_mod::{lemma_fundamental_div_mod, lemma_div_is_ordered};
use vstd::arithmetic::mul::{lemma_mul_inequality, lemma_mul_is_commutative};
use crate::model::{Sample, Bucket, Record, records, dup_sample, copy_fields};
use crate::query::{SortKey, QuerySpec};

verus! {

/// The sort value a key selects from a record; a metric index beyond the
/// record's columns reads as zero.
pub open spec fn key_val(k: SortKey, r: Record) -> int {
    match k {
        SortKey::StartTime => r.start_time as int,
        SortKey::EndTime => r.end_time as int,
        SortKey::Metric(i) => if i < r.fields.len() {
            r.fields[i as int] as int
        } else {
            0
        },
    }
}

/// The row order a key and direction induce.
pub open spec fn row_le(k: SortKey, desc: bool, a: Record, b: Record) -> bool {
    if desc {
        key_val(k, a) >= key_val(k, b)
    } else {
        key_val(k, a) <= key_val(k, b)
    }
}

/// The row order as a relation value.
pub open spec fn rel_of(k: SortKey, desc: bool) -> spec_fn(Record, Record) -> bool {
    |a: Record, b: Record| row_le(k, desc, a, b)
}

/// Stable insertion into a sorted sequence: the new record goes after
/// every record that the order places at or before it.
pub open spec fn insert_by(
    le: spec_fn(Record, Record) -> bool,
    s: Seq<Record>,
    x: Record,
) -> Seq<Record>
    decreases s.len(),
{
    if s.len() > 0 && le(s.first(), x) {
        seq![s.first()] + insert_by(le, s.drop_first(), x)
    } else {
        seq![x] + s
    }
}

/// Stable insertion sort: the deterministic order the engine sorts rows
/// into.
pub open spec fn sort_by_rel(le: spec_fn(Record, Record) -> bool, s: Seq<Record>) -> Seq<Record>
    decreases s.len(),
{
    if s.len() == 0 {
        s
    } else {
        insert_by(le, sort_by_rel(le, s.drop_last()), s.last())
    }
}

/// Whether a record's window lies inside the query range: it starts at
/// or after `from` and ends at or before `to`.
pub open spec fn in_range(from: u64, to: u64, r: Record) -> bool {
    from <= r.start_time && r.end_time <= to
}

/// The records of a sequence whose windows lie inside the query range.
pub open spec fn filter_range(s: Seq<Record>, from: u64, to: u64) -> Seq<Record> {
    s.filter(|r: Record| in_range(from, to, r))
}

/// The sort value of a row.
fn key_of_row(k: SortKey, r: &Sample) -> (v: u64)
    ensures
        v as int == key_val(k, r@),
{
    match k {
        SortKey::StartTime => r.start_time,
        SortKey::EndTime => r.end_time,
        SortKey::Metric(i) => {
            if i < r.fields.len() {
                r.fields[i]
            } else {
                0
            }
        },
    }
}

/// Whether the order places `a` at or before `b`.
fn row_le_exec(k: SortKey, desc: bool, a: &Sample, b: &Sample) -> (r: bool)
    ensures
        r == row_le(k, desc, a@, b@),
{
    let ka = key_of_row(k, a);
    let kb = key_of_row(k, b);
    if desc {
        ka >= kb
    } else {
        ka <= kb
    }
}

/// A characterization of stable insertion: inserting at the first
/// position whose record the order does not place at or before the new
/// one splits the sequence there.
proof fn lemma_insert_by_position(
    le: spec_fn(Record, Record) -> bool,
    s: Seq<Record>,
    x: Record,
    j: int,
)
    requires
        0 <= j <= s.len(),
        forall|i: int| 0 <= i < j ==> le(#[trigger] s[i], x),
        j < s.len() ==> !le(s[j], x),
    ensures
        insert_by(le, s, x) =~= s.subrange(0, j) + seq![x] + s.subrange(j, s.len() as int),
    decreases j,
{
    if j == 0 {
        assert(s.subrange(0, 0) =~= Seq::<Record>::empty());
        assert(s.subrange(0, s.len() as int) =~= s);
    } else {
        let d = s.drop_first();
        lemma_insert_by_position(le, d, x, j - 1);
        assert(le(s.first(), x));
        assert(d.subrange(0, j - 1) =~= s.subrange(1, j));
        assert(d.subrange(j - 1, d.len() as int) =~= s.subrange(j, s.len() as int));
        assert(insert_by(le, s, x) =~= seq![s.first()] + insert_by(le, d, x));
    }
}

/// Sorts rows by the given key and direction, stably, into exactly the
/// order the insertion-sort specification gives.
pub fn sort_rows(v: Vec<Sample>, key: SortKey, desc: bool) -> (r: Vec<Sample>)
    ensures
        records(r@) == sort_by_rel(rel_of(key, desc), records(v@)),
{
    let ghost le = rel_of(key, desc);
    let ghost orig: Seq<Sample> = v@;
    let mut input = v;
    let mut out: Vec<Sample> = Vec::new();
    let ghost mut k: int = 0;
    proof {
        assert(orig.take(0) =~= Seq::<Sample>::empty());
        assert(records(Seq::<Sample>::empty()) =~= Seq::<Record>::empty());
    }
    while input.len() > 0
        invariant
            0 <= k <= orig.len(),
            k + input@.len() == orig.len(),
            input@ =~= orig.subrange(k, orig.len() as int),
            records(out@) == sort_by_rel(le, records(orig.take(k))),
            le == rel_of(key, desc),
        decreases input@.len(),
    {
        let x = input.remove(0);
        proof {
            assert(x == orig[k]);
        }
        let mut j: usize = 0;
        let mut stop = false;
        while !stop && j < out.len()
            invariant
                0 <= j <= out@.len(),
                forall|i: int| 0 <= i < j ==> le(records(out@)[i], x@),
                stop ==> j < out@.len() && !le(records(out@)[j as int], x@),
                le == rel_of(key, desc),
            decreases out@.len() - j + (if stop {
                0int
            } else {
                1int
            }),
        {
            if row_le_exec(key, desc, &out[j], &x) {
                j = j + 1;
            } else {
                stop = true;
            }
        }
        proof {
            lemma_insert_by_position(le, records(out@), x@, j as int);
        }
        let ghost out_before = out@;
        out.insert(j, x);
        proof {
            assert(records(out@) =~= records(out_before).subrange(0, j as int) + seq![x@]
                + records(out_before).subrange(j as int, out_before.len() as int));
            let t1 = orig.take(k + 1);
            assert(t1.drop_last() =~= orig.take(k));
            assert(records(t1).drop_last() =~= records(orig.take(k)));
            assert(records(t1).last() == x@);
            assert(records(t1).len() > 0);
            assert(sort_by_rel(le, records(t1)) == insert_by(
                le,
                sort_by_rel(le, records(t1).drop_last()),
                records(t1).last(),
            ));
            assert(records(out@) =~= sort_by_rel(le, records(orig.take(k + 1))));
            k = k + 1;
            assert(input@ =~= orig.subrange(k, orig.len() as int));
        }
    }
    proof {
        assert(orig.take(orig.len() as int) =~= orig);
    }
    out
}

/// Keeps the rows whose windows lie inside `[from, to]`.
pub fn filter_rows(v: &Vec<Sample>, from: u64, to: u64) -> (r: Vec<Sample>)
    ensures
        records(r@) == filter_range(records(v@), from, to),
{
    let ghost pred = |r: Record| in_range(from, to, r);
    let mut out: Vec<Sample> = Vec::new();
    let mut i: usize = 0;
    proof {
        reveal(Seq::filter);
        assert(records(v@).take(0) =~= Seq::<Record>::empty());
        assert(records(out@) =~= records(v@).take(0).filter(pred));
    }
    while i < v.len()
        invariant
            0 <= i <= v@.len(),
            records(out@) == records(v@).take(i as int).filter(pred),
            pred == (|r: Record| in_range(from, to, r)),
        decreases v@.len() - i,
    {
        let ghost out_before = out@;
        let s = &v[i];
        let keep = from <= s.start_time && s.end_time <= to;
        if keep {
            out.push(dup_sample(s));
        }
        proof {
            reveal(Seq::filter);
            let t1 = records(v@).take(i as int + 1);
            assert(t1.drop_last() =~= records(v@).take(i as int));
            assert(t1.last() == v@[i as int]@);
            assert(t1.len() > 0);
            if keep {
                assert(pred(t1.last()));
                assert(records(out@) =~= records(out_before).push(v@[i as int]@));
                assert(records(out@) =~= t1.filter(pred));
            } else {
                assert(!pred(t1.last()));
                assert(records(out@) =~= t1.filter(pred));
            }
        }
        i = i + 1;
    }
    proof {
        assert(records(v@).take(v@.len() as int) =~= records(v@));
    }
    out
}

/// The interval-aligned window a start time falls into: the largest
/// multiple of the interval at or below it.
pub open spec fn window_start(iv: u64, t: u64) -> int {
    t - (t as int % iv as int)
}

/// The remainder of a nonnegative value never exceeds the value.
proof fn lemma_mod_at_most(t: u64, iv: u64)
    requires
        iv > 0,
    ensures
        0 <= t as int % iv as int <= t,
{
    assert(0 <= t as int % iv as int <= t) by (nonlinear_arith)
        requires
            iv > 0,
            t >= 0,
    {}
}

/// The bucketing fold: walking the rows in order, a row whose window
/// matches the bucket under construction replaces its end time and
/// metrics; a row in a new window opens a new bucket with that row's
/// start time. Windows with no rows produce no bucket.
pub open spec fn fold_rows(iv: u64, s: Seq<Record>) -> Seq<Record>
    decreases s.len(),
{
    if s.len() == 0 {
        Seq::<Record>::empty()
    } else {
        let prev = fold_rows(iv, s.drop_last());
        let x = s.last();
        if prev.len() > 0 && window_start(iv, prev.last().start_time) == window_start(
            iv,
            x.start_time,
        ) {
            prev.update(
                prev.len() - 1,
                Record {
                    start_time: prev.last().start_time,
                    end_time: x.end_time,
                    fields: x.fields,
                },
            )
        } else {
            prev.push(x)
        }
    }
}

/// Folds chronologically ordered rows into one bucket per populated
/// interval window.
pub fn fold_buckets(v: Vec<Sample>, iv: u64) -> (r: Vec<Bucket>)
    requires
        iv > 0,
    ensures
        records(r@) == fold_rows(iv, records(v@)),
{
    let ghost orig: Seq<Sample> = v@;
    let mut input = v;
    let mut out: Vec<Bucket> = Vec::new();
    let ghost mut k: int = 0;
    proof {
        assert(orig.take(0) =~= Seq::<Sample>::empty());
        assert(records(Seq::<Sample>::empty()) =~= Seq::<Record>::empty());
    }
    while input.len() > 0
        invariant
            iv > 0,
            0 <= k <= orig.len(),
            k + input@.len() == orig.len(),
            input@ =~= orig.subrange(k, orig.len() as int),
            records(out@) == fold_rows(iv, records(orig.take(k))),
        decreases input@.len(),
    {
        let x = input.remove(0);
        proof {
            assert(x == orig[k]);
        }
        let ghost out_before = out@;
        let n = out.len();
        let merged: bool = if n > 0 {
            let last_start = out[n - 1].start_time;
            proof {
                lemma_mod_at_most(last_start, iv);
                lemma_mod_at_most(x.start_time, iv);
            }
            last_start - last_start % iv == x.start_time - x.start_time % iv
        } else {
            false
        };
        if merged {
            match out.pop() {
                Some(prev) => {
                    let fused = Sample {
                        start_time: prev.start_time,
                        end_time: x.end_time,
                        fields: x.fields,
                    };
                    out.push(fused);
                },
                None => {
                    proof {
                        assert(false);
                    }
                },
            }
        } else {
            out.push(x);
        }
        proof {
            let t1 = records(orig.take(k + 1));
            assert(orig.take(k + 1).drop_last() =~= orig.take(k));
            assert(t1.drop_last() =~= records(orig.take(k)));
            assert(t1.last() == orig[k]@);
            assert(t1.len() > 0);
            let prev_rows = fold_rows(iv, records(orig.take(k)));
            assert(prev_rows == records(out_before));
            if merged {
                assert(records(out@) =~= records(out_before).update(
                    out_before.len() - 1,
                    Record {
                        start_time: out_before.last().start_time,
                        end_time: orig[k].end_time,
                        fields: orig[k].fields@,
                    },
                ));
                assert(records(out@) =~= fold_rows(iv, t1));
            } else {
                assert(records(out@) =~= records(out_before).push(orig[k]@));
                assert(records(out@) =~= fold_rows(iv, t1));
            }
            k = k + 1;
            assert(input@ =~= orig.subrange(k, orig.len() as int));
        }
    }
    proof {
        assert(orig.take(orig.len() as int) =~= orig);
    }
    out
}

/// The pagination offset: pages are 1-indexed, and pages at or below 1
/// skip nothing.
pub open spec fn spec_skip(page: int, count: int) -> int {
    if page <= 1 {
        0
    } else {
        (page - 1) * count
    }
}

/// The page window of a row sequence: skip the page offset, then take at
/// most `count` rows, truncated at the end of the sequence.
pub open spec fn page_slice(s: Seq<Record>, page: int, count: int) -> Seq<Record> {
    let skip = spec_skip(page, count);
    let lo = if skip < s.len() {
        skip
    } else {
        s.len() as int
    };
    let hi = if skip + count < s.len() {
        skip + count
    } else {
        s.len() as int
    };
    s.subrange(lo, hi)
}

/// Takes the requested page of rows: the page offset is skipped and at
/// most `count` rows are returned.
pub fn paginate(v: Vec<Sample>, page: i64, count: u64) -> (r: Vec<Sample>)
    ensures
        records(r@) == page_slice(records(v@), page as int, count as int),
{
    let len = v.len();
    let lo: usize = if page <= 1 {
        0
    } else {
        let pm1: u128 = (page - 1) as u128;
        let cw: u128 = count as u128;
        proof {
            assert(pm1 * cw < 0xffffffffffffffffffffffffffffffff) by (nonlinear_arith)
                requires
                    pm1 < 0x10000000000000000,
                    cw < 0x10000000000000000,
            {}
        }
        let skip_wide: u128 = pm1 * cw;
        if skip_wide >= len as u128 {
            len
        } else {
            skip_wide as usize
        }
    };
    proof {
        let skip = spec_skip(page as int, count as int);
        if page > 1 {
            assert(skip == (page - 1) * (count as int));
            assert(skip >= 0) by (nonlinear_arith)
                requires
                    page as int > 1,
                    count as int >= 0,
                    skip == (page as int - 1) * (count as int),
            {}
        }
        assert(lo == if skip < records(v@).len() {
            skip
        } else {
            records(v@).len() as int
        });
    }
    let hi: usize = if count >= (len - lo) as u64 {
        len
    } else {
        lo + count as usize
    };
    proof {
        let skip = spec_skip(page as int, count as int);
        let slen = records(v@).len() as int;
        let spec_lo = if skip < slen {
            skip
        } else {
            slen
        };
        let spec_hi = if skip + count < slen {
            skip + count
        } else {
            slen
        };
        assert(lo == spec_lo);
        assert(hi == spec_hi);
    }
    let mut rest = v;
    let tail = rest.split_off(lo);
    let mut pagev = tail;
    let _cut = pagev.split_off(hi - lo);
    proof {
        assert(pagev@ =~= v@.subrange(lo as int, hi as int));
        assert(records(pagev@) =~= page_slice(records(v@), page as int, count as int));
    }
    pagev
}

/// The mathematical reading of a summary record.
#[verifier::ext_equal]
pub ghost struct SummaryRecord {
    pub start_time: u64,
    pub end_time: u64,
    pub last_fields: Seq<u64>,
    pub deltas: Seq<int>,
}

/// The derived summary of a returned page: the first row's start time,
/// the last row's end time, the last row's absolute metric values, and
/// the start-versus-end delta of every metric column.
pub struct SummaryMeta {
    pub start_time: u64,
    pub end_time: u64,
    pub last_fields: Vec<u64>,
    pub deltas: Vec<i128>,
}

impl View for SummaryMeta {
    type V = SummaryRecord;

    open spec fn view(&self) -> SummaryRecord {
        SummaryRecord {
            start_time: self.start_time,
            end_time: self.end_time,
            last_fields: self.last_fields@,
            deltas: Seq::new(self.deltas@.len(), |i: int| self.deltas@[i] as int),
        }
    }
}

/// The summary two boundary rows derive: deltas run over the last row's
/// columns, reading a column the first row lacks as zero.
pub open spec fn summary_of(first: Record, last: Record) -> SummaryRecord {
    SummaryRecord {
        start_time: first.start_time,
        end_time: last.end_time,
        last_fields: last.fields,
        deltas: Seq::new(
            last.fields.len(),
            |i: int|
                last.fields[i] - if i < first.fields.len() {
                    first.fields[i] as int
                } else {
                    0
                },
        ),
    }
}

/// Derives the summary record from the first and last row of a returned
/// page.
pub fn get_summary(first: &Sample, last: &Sample) -> (r: SummaryMeta)
    ensures
        r@ == summary_of(first@, last@),
{
    let mut deltas: Vec<i128> = Vec::new();
    let mut i: usize = 0;
    while i < last.fields.len()
        invariant
            0 <= i <= last.fields@.len(),
            deltas@.len() == i,
            forall|j: int|
                0 <= j < i ==> #[trigger] deltas@[j] == last.fields@[j] - (if j
                    < first.fields@.len() {
                    first.fields@[j] as int
                } else {
                    0
                }),
        decreases last.fields@.len() - i,
    {
        let base: u64 = if i < first.fields.len() {
            first.fields[i]
        } else {
            0
        };
        let d: i128 = last.fields[i] as i128 - base as i128;
        deltas.push(d);
        i = i + 1;
    }
    let r = SummaryMeta {
        start_time: first.start_time,
        end_time: last.end_time,
        last_fields: copy_fields(&last.fields),
        deltas,
    };
    proof {
        assert(r@.deltas =~= summary_of(first@, last@).deltas);
        assert(r@ =~= summary_of(first@, last@));
    }
    r
}

/// The chronological bucket sequence a query derives before pagination:
/// filter to the range, order by start time, fold into interval windows,
/// and order the buckets by start time.
pub open spec fn chron_buckets(s: Seq<Record>, from: u64, to: u64, iv: u64) -> Seq<Record> {
    let filtered = filter_range(s, from, to);
    let sorted = sort_by_rel(rel_of(SortKey::StartTime, false), filtered);
    let folded = fold_rows(iv, sorted);
    sort_by_rel(rel_of(SortKey::StartTime, false), folded)
}

/// The rows a query returns: the requested page of the chronological
/// bucket sequence, re-sorted descending by the caller's sort key.
pub open spec fn query_rows(
    s: Seq<Record>,
    from: u64,
    to: u64,
    iv: u64,
    page: int,
    count: int,
    key: SortKey,
) -> Seq<Record> {
    sort_by_rel(rel_of(key, true), page_slice(chron_buckets(s, from, to, iv), page, count))
}

/// Runs the bucketing pipeline over raw samples for a resolved query
/// spec and returns the page of buckets in display order.
pub fn query_buckets(samples: &Vec<Sample>, q: &QuerySpec) -> (r: Vec<Bucket>)
    ensures
        records(r@) == query_rows(
            records(samples@),
            q.from,
            q.to,
            crate::interval::interval_seconds(q.interval) as u64,
            q.page as int,
            q.count as int,
            q.sort_key,
        ),
{
    let iv_i: i64 = q.interval.as_seconds();
    let iv: u64 = iv_i as u64;
    let filtered = filter_rows(samples, q.from, q.to);
    let sorted = sort_rows(filtered, SortKey::StartTime, false);
    let folded = fold_buckets(sorted, iv);
    let chron = sort_rows(folded, SortKey::StartTime, false);
    let page = paginate(chron, q.page, q.count);
    sort_rows(page, q.sort_key, true)
}

/// The outcome of a history query: either the explicit no-data signal
/// for an empty bucket page, or the page of buckets with its derived
/// summary.
pub enum HistoryResult {
    NoData,
    Data(SummaryMeta, Vec<Bucket>),
}

/// Answers a history query: an empty bucket page yields the explicit
/// no-data signal, a populated one is returned with the summary derived
/// from its first and last row.
pub fn fetch_history(samples: &Vec<Sample>, q: &QuerySpec) -> (r: HistoryResult)
    ensures
        ({
            let rows = query_rows(
                records(samples@),
                q.from,
                q.to,
                crate::interval::interval_seconds(q.interval) as u64,
                q.page as int,
                q.count as int,
                q.sort_key,
            );
            match r {
                HistoryResult::NoData => rows.len() == 0,
                HistoryResult::Data(meta, intervals) => rows.len() > 0 && records(intervals@)
                    == rows && meta@ == summary_of(rows.first(), rows.last()),
            }
        }),
{
    let rows = query_buckets(samples, q);
    if rows.len() == 0 {
        HistoryResult::NoData
    } else {
        let meta = get_summary(&rows[0], &rows[rows.len() - 1]);
        HistoryResult::Data(meta, rows)
    }
}

/// The row order of any key and direction is total and transitive.
pub proof fn lemma_row_le_total(k: SortKey, desc: bool)
    ensures
        forall|a: Record, b: Record| #[trigger] row_le(k, desc, a, b) || #[trigger] row_le(
            k,
            desc,
            b,
            a,
        ),
        forall|a: Record, b: Record, c: Record|
            #[trigger] row_le(k, desc, a, b) && #[trigger] row_le(k, desc, b, c) ==> row_le(
                k,
                desc,
                a,
                c,
            ),
{
}

/// Every row of an insertion is the inserted row or one of the old rows,
/// and the insertion grows the sequence by one.
proof fn lemma_insert_by_elements(le: spec_fn(Record, Record) -> bool, s: Seq<Record>, x: Record)
    ensures
        insert_by(le, s, x).len() == s.len() + 1,
        forall|i: int|
            0 <= i < insert_by(le, s, x).len() ==> insert_by(le, s, x)[i] == x || s.contains(
                #[trigger] insert_by(le, s, x)[i],
            ),
    decreases s.len(),
{
    let r = insert_by(le, s, x);
    if s.len() > 0 && le(s.first(), x) {
        lemma_insert_by_elements(le, s.drop_first(), x);
        assert forall|i: int| 0 <= i < r.len() implies r[i] == x || s.contains(r[i]) by {
            if i == 0 {
                assert(r[0] == s.first());
                assert(s.contains(s[0]));
            } else {
                let t = insert_by(le, s.drop_first(), x);
                assert(r[i] == t[i - 1]);
                if t[i - 1] != x {
                    assert(s.drop_first().contains(t[i - 1]));
                    let j = choose|j: int|
                        0 <= j < s.drop_first().len() && s.drop_first()[j] == t[i - 1];
                    assert(s[j + 1] == t[i - 1]);
                }
            }
        }
    } else {
        assert forall|i: int| 0 <= i < r.len() implies r[i] == x || s.contains(r[i]) by {
            if i > 0 {
                assert(r[i] == s[i - 1]);
            }
        }
    }
}

/// Insertion into a sequence sorted by a total, transitive order keeps
/// it sorted.
proof fn lemma_insert_by_sorted(le: spec_fn(Record, Record) -> bool, s: Seq<Record>, x: Record)
    requires
        sorted_by(s, le),
        forall|a: Record, b: Record| #[trigger] le(a, b) || #[trigger] le(b, a),
        forall|a: Record, b: Record, c: Record|
            #[trigger] le(a, b) && #[trigger] le(b, c) ==> le(a, c),
    ensures
        sorted_by(insert_by(le, s, x), le),
    decreases s.len(),
{
    let r = insert_by(le, s, x);
    if s.len() > 0 && le(s.first(), x) {
        let d = s.drop_first();
        assert(sorted_by(d, le)) by {
            assert(forall|i: int, j: int|
                0 <= i < j < d.len() ==> le(#[trigger] d[i], #[trigger] d[j]));
        }
        lemma_insert_by_sorted(le, d, x);
        lemma_insert_by_elements(le, d, x);
        let t = insert_by(le, d, x);
        assert forall|i: int, j: int| 0 <= i < j < r.len() implies le(r[i], r[j]) by {
            if i == 0 {
                assert(r[j] == t[j - 1]);
                if t[j - 1] == x {
                    assert(le(s.first(), x));
                } else {
                    assert(d.contains(t[j - 1]));
                    let m = choose|m: int| 0 <= m < d.len() && d[m] == t[j - 1];
                    assert(le(s[0], s[m + 1]));
                }
            } else {
                assert(r[i] == t[i - 1] && r[j] == t[j - 1]);
            }
        }
    } else {
        assert forall|i: int, j: int| 0 <= i < j < r.len() implies le(r[i], r[j]) by {
            if i == 0 {
                assert(r[0] == x);
                assert(r[j] == s[j - 1]);
                if s.len() > 0 {
                    assert(!le(s.first(), x));
                    assert(le(x, s.first()));
                    if j > 1 {
                        assert(le(s[0], s[j - 1]));
                    }
                }
            } else {
                assert(r[i] == s[i - 1] && r[j] == s[j - 1]);
            }
        }
    }
}

/// Insertion adds exactly the inserted row to the sequence's multiset.
proof fn lemma_insert_by_multiset(le: spec_fn(Record, Record) -> bool, s: Seq<Record>, x: Record)
    ensures
        insert_by(le, s, x).to_multiset() == s.to_multiset().insert(x),
    decreases s.len(),
{
    broadcast use group_to_multiset_ensures;

    let r = insert_by(le, s, x);
    if s.len() > 0 && le(s.first(), x) {
        let d = s.drop_first();
        lemma_insert_by_multiset(le, d, x);
        let t = insert_by(le, d, x);
        assert(r =~= seq![s.first()] + t);
        lemma_multiset_commutative(seq![s.first()], t);
        assert(s =~= seq![s.first()] + d);
        lemma_multiset_commutative(seq![s.first()], d);
        assert(seq![s.first()].to_multiset() =~= Multiset::<Record>::empty().insert(s.first()))
            by {
            assert(seq![s.first()] =~= Seq::<Record>::empty().push(s.first()));
        }
        assert(r.to_multiset() =~= s.to_multiset().insert(x));
    } else {
        assert(r =~= seq![x] + s);
        lemma_multiset_commutative(seq![x], s);
        assert(seq![x].to_multiset() =~= Multiset::<Record>::empty().insert(x)) by {
            assert(seq![x] =~= Seq::<Record>::empty().push(x));
        }
        assert(r.to_multiset() =~= s.to_multiset().insert(x));
    }
}

/// The sort returns a sequence sorted by its order.
pub proof fn lemma_sort_by_rel_sorted(le: spec_fn(Record, Record) -> bool, s: Seq<Record>)
    requires
        forall|a: Record, b: Record| #[trigger] le(a, b) || #[trigger] le(b, a),
        forall|a: Record, b: Record, c: Record|
            #[trigger] le(a, b) && #[trigger] le(b, c) ==> le(a, c),
    ensures
        sorted_by(sort_by_rel(le, s), le),
    decreases s.len(),
{
    if s.len() > 0 {
        lemma_sort_by_rel_sorted(le, s.drop_last());
        lemma_insert_by_sorted(le, sort_by_rel(le, s.drop_last()), s.last());
    }
}

/// The sort keeps exactly the rows it was given: it permutes and loses
/// nothing.
pub proof fn lemma_sort_by_rel_multiset(le: spec_fn(Record, Record) -> bool, s: Seq<Record>)
    ensures
        sort_by_rel(le, s).to_multiset() == s.to_multiset(),
        sort_by_rel(le, s).len() == s.len(),
    decreases s.len(),
{
    broadcast use group_to_multiset_ensures;

    if s.len() > 0 {
        lemma_sort_by_rel_multiset(le, s.drop_last());
        lemma_insert_by_multiset(le, sort_by_rel(le, s.drop_last()), s.last());
        lemma_insert_by_elements(le, sort_by_rel(le, s.drop_last()), s.last());
        assert(s =~= s.drop_last().push(s.last()));
        assert(s.to_multiset() =~= s.drop_last().to_multiset().insert(s.last()));
    }
}

/// Replay: the bucketing pipeline is a function of the store contents
/// and the resolved spec alone. Two runs over the same raw sample set
/// with the same spec yield identical rows; there is no cross-call
/// mutation.
pub proof fn lemma_query_replay(
    rows1: Seq<Record>,
    rows2: Seq<Record>,
    s: Seq<Record>,
    from: u64,
    to: u64,
    iv: u64,
    page: int,
    count: int,
    key: SortKey,
)
    requires
        rows1 == query_rows(s, from, to, iv, page, count, key),
        rows2 == query_rows(s, from, to, iv, page, count, key),
    ensures
        rows1 == rows2,
{
}

/// The union of the first two pages is the chronological prefix: rows
/// returned for page 1 and page 2 with the same count are together
/// exactly the first `2 * count` chronological buckets, with no gap and
/// no duplicate, even though each page is re-sorted for display.
pub proof fn lemma_pagination_partition(
    s: Seq<Record>,
    from: u64,
    to: u64,
    iv: u64,
    count: int,
    key: SortKey,
)
    requires
        count >= 0,
    ensures
        ({
            let chron = chron_buckets(s, from, to, iv);
            let hi = if 2 * count < chron.len() {
                2 * count
            } else {
                chron.len() as int
            };
            query_rows(s, from, to, iv, 1, count, key).to_multiset().add(
                query_rows(s, from, to, iv, 2, count, key).to_multiset(),
            ) == chron.subrange(0, hi).to_multiset()
        }),
{
    let chron = chron_buckets(s, from, to, iv);
    let len = chron.len() as int;
    let mid = if count < len {
        count
    } else {
        len
    };
    let hi = if 2 * count < len {
        2 * count
    } else {
        len
    };
    let slice1 = page_slice(chron, 1, count);
    let slice2 = page_slice(chron, 2, count);
    assert(slice1 =~= chron.subrange(0, mid));
    assert(spec_skip(2, count) == count);
    assert(slice2 =~= chron.subrange(mid, hi));
    lemma_sort_by_rel_multiset(rel_of(key, true), slice1);
    lemma_sort_by_rel_multiset(rel_of(key, true), slice2);
    assert(chron.subrange(0, hi) =~= slice1 + slice2);
    lemma_multiset_commutative(slice1, slice2);
}

/// The rows a query returns come sorted descending by the caller's sort
/// key; the chronological bucket sequence they were paged from is sorted
/// ascending by start time.
pub proof fn lemma_query_rows_display_order(
    s: Seq<Record>,
    from: u64,
    to: u64,
    iv: u64,
    page: int,
    count: int,
    key: SortKey,
)
    ensures
        sorted_by(query_rows(s, from, to, iv, page, count, key), rel_of(key, true)),
        sorted_by(chron_buckets(s, from, to, iv), rel_of(SortKey::StartTime, false)),
{
    lemma_row_le_total(key, true);
    lemma_row_le_total(SortKey::StartTime, false);
    lemma_sort_by_rel_sorted(
        rel_of(key, true),
        page_slice(chron_buckets(s, from, to, iv), page, count),
    );
    lemma_sort_by_rel_sorted(
        rel_of(SortKey::StartTime, false),
        fold_rows(iv, sort_by_rel(rel_of(SortKey::StartTime, false), filter_range(s, from, to))),
    );
}

/// A window start is the interval times the Euclidean quotient of the
/// time by the interval.
proof fn lemma_window_start_div(iv: u64, t: u64)
    requires
        iv > 0,
    ensures
        window_start(iv, t) == (iv as int) * ((t as int) / (iv as int)),
{
    lemma_fundamental_div_mod(t as int, iv as int);
}

/// Window starts are monotone in the start time.
proof fn lemma_window_monotone(iv: u64, t1: u64, t2: u64)
    requires
        iv > 0,
        t1 <= t2,
    ensures
        window_start(iv, t1) <= window_start(iv, t2),
{
    lemma_window_start_div(iv, t1);
    lemma_window_start_div(iv, t2);
    lemma_div_is_ordered(t1 as int, t2 as int, iv as int);
    lemma_mul_inequality((t1 as int) / (iv as int), (t2 as int) / (iv as int), iv as int);
    lemma_mul_is_commutative(iv as int, (t1 as int) / (iv as int));
    lemma_mul_is_commutative(iv as int, (t2 as int) / (iv as int));
}

/// The rows of a sequence that fall into one interval window, in order.
pub open spec fn window_rows(s: Seq<Record>, iv: u64, w: int) -> Seq<Record> {
    s.filter(|r: Record| window_start(iv, r.start_time) == w)
}

/// One unfolding of the window filter.
proof fn lemma_window_rows_step(s: Seq<Record>, iv: u64, w: int)
    requires
        s.len() > 0,
    ensures
        window_rows(s, iv, w) == if window_start(iv, s.last().start_time) == w {
            window_rows(s.drop_last(), iv, w).push(s.last())
        } else {
            window_rows(s.drop_last(), iv, w)
        },
{
    reveal(Seq::filter);
}

/// A window no row falls into filters to nothing.
proof fn lemma_window_rows_none(s: Seq<Record>, iv: u64, w: int)
    requires
        forall|i: int| 0 <= i < s.len() ==> window_start(iv, (#[trigger] s[i]).start_time) != w,
    ensures
        window_rows(s, iv, w).len() == 0,
    decreases s.len(),
{
    reveal(Seq::filter);
    if s.len() > 0 {
        assert(forall|i: int| 0 <= i < s.len() - 1 ==> s.drop_last()[i] == #[trigger] s[i]);
        lemma_window_rows_none(s.drop_last(), iv, w);
    }
}

/// Every row of a window is a row of the sequence and falls into the
/// window.
proof fn lemma_window_rows_elements(s: Seq<Record>, iv: u64, w: int)
    ensures
        forall|i: int|
            0 <= i < window_rows(s, iv, w).len() ==> s.contains(
                #[trigger] window_rows(s, iv, w)[i],
            ) && window_start(iv, window_rows(s, iv, w)[i].start_time) == w,
    decreases s.len(),
{
    reveal(Seq::filter);
    if s.len() > 0 {
        lemma_window_rows_elements(s.drop_last(), iv, w);
        let prev = window_rows(s.drop_last(), iv, w);
        let cur = window_rows(s, iv, w);
        assert forall|i: int| 0 <= i < cur.len() implies s.contains(cur[i]) && window_start(
            iv,
            cur[i].start_time,
        ) == w by {
            if i < prev.len() {
                assert(cur[i] == prev[i]);
                assert(s.drop_last().contains(prev[i]));
                let j = choose|j: int|
                    0 <= j < s.drop_last().len() && s.drop_last()[j] == prev[i];
                assert(s[j] == prev[i]);
            } else {
                assert(cur[i] == s.last());
                assert(s[s.len() - 1] == s.last());
            }
        }
    }
}

/// A bucket accounts for its window: the window is populated, the
/// bucket's start time is the window's first row's (and no row of the
/// window starts earlier), and its end time and metrics are the window's
/// last row's.
pub open spec fn bucket_matches_window(s: Seq<Record>, iv: u64, b: Record) -> bool {
    let w = window_rows(s, iv, window_start(iv, b.start_time));
    &&& w.len() > 0
    &&& b.start_time == w.first().start_time
    &&& (forall|i: int| 0 <= i < w.len() ==> b.start_time <= (#[trigger] w[i]).start_time)
    &&& b.end_time == w.last().end_time
    &&& b.fields == w.last().fields
}

/// The fold invariants over a chronologically ordered sample set: it
/// yields a bucket for a nonempty input, every sample's window is at or
/// before the last bucket's, bucket windows strictly increase, and every
/// bucket accounts for its window.
proof fn lemma_fold_invariants(iv: u64, s: Seq<Record>)
    requires
        iv > 0,
        sorted_by(s, rel_of(SortKey::StartTime, false)),
    ensures
        ({
            let f = fold_rows(iv, s);
            &&& (s.len() > 0 ==> f.len() > 0)
            &&& (f.len() > 0 ==> forall|i: int|
                0 <= i < s.len() ==> window_start(iv, (#[trigger] s[i]).start_time)
                    <= window_start(iv, f.last().start_time))
            &&& (forall|i: int, j: int|
                0 <= i < j < f.len() ==> window_start(iv, (#[trigger] f[i]).start_time)
                    < window_start(iv, (#[trigger] f[j]).start_time))
            &&& (forall|j: int|
                0 <= j < f.len() ==> bucket_matches_window(s, iv, #[trigger] f[j]))
        }),
    decreases s.len(),
{
    let f = fold_rows(iv, s);
    if s.len() == 0 {
    } else {
        let sp = s.drop_last();
        let x = s.last();
        assert(sorted_by(sp, rel_of(SortKey::StartTime, false))) by {
            assert(forall|i: int, j: int|
                0 <= i < j < sp.len() ==> rel_of(SortKey::StartTime, false)(
                    #[trigger] sp[i],
                    #[trigger] sp[j],
                ));
        }
        lemma_fold_invariants(iv, sp);
        let fp = fold_rows(iv, sp);
        assert(forall|i: int|
            0 <= i < sp.len() ==> (#[trigger] sp[i]).start_time <= x.start_time) by {
            assert(forall|i: int|
                0 <= i < sp.len() ==> rel_of(SortKey::StartTime, false)(
                    #[trigger] s[i],
                    s[s.len() - 1],
                ));
        }
        assert(forall|i: int|
            0 <= i < sp.len() ==> window_start(iv, (#[trigger] sp[i]).start_time)
                <= window_start(iv, x.start_time)) by {
            assert forall|i: int| 0 <= i < sp.len() implies window_start(
                iv,
                (#[trigger] sp[i]).start_time,
            ) <= window_start(iv, x.start_time) by {
                lemma_window_monotone(iv, sp[i].start_time, x.start_time);
            }
        }
        if fp.len() > 0 && window_start(iv, fp.last().start_time) == window_start(
            iv,
            x.start_time,
        ) {
            let b = Record {
                start_time: fp.last().start_time,
                end_time: x.end_time,
                fields: x.fields,
            };
            assert(f == fp.update(fp.len() - 1, b));
            assert(f.last() == b);
            let wlast = window_start(iv, fp.last().start_time);
            assert(window_start(iv, b.start_time) == wlast);
            assert forall|j: int| 0 <= j < f.len() implies bucket_matches_window(
                s,
                iv,
                #[trigger] f[j],
            ) by {
                let wj = window_start(iv, f[j].start_time);
                lemma_window_rows_step(s, iv, wj);
                if j < f.len() - 1 {
                    assert(f[j] == fp[j]);
                    assert(wj < wlast);
                    assert(window_rows(s, iv, wj) == window_rows(sp, iv, wj));
                    assert(bucket_matches_window(sp, iv, fp[j]));
                } else {
                    assert(wj == wlast);
                    assert(window_rows(s, iv, wj) == window_rows(sp, iv, wj).push(x));
                    assert(bucket_matches_window(sp, iv, fp.last()));
                    let wp = window_rows(sp, iv, wj);
                    let w = window_rows(s, iv, wj);
                    assert(w.first() == wp.first());
                    assert(w.last() == x);
                    lemma_window_rows_elements(sp, iv, wj);
                    assert forall|i: int| 0 <= i < w.len() implies b.start_time <= (
                    #[trigger] w[i]).start_time by {
                        if i < wp.len() {
                            assert(w[i] == wp[i]);
                        } else {
                            assert(w[i] == x);
                            assert(sp.contains(wp.first()));
                            let m = choose|m: int|
                                0 <= m < sp.len() && sp[m] == wp.first();
                            assert(sp[m].start_time <= x.start_time);
                        }
                    }
                }
            }
            assert(f.len() > 0 ==> forall|i: int|
                0 <= i < s.len() ==> window_start(iv, (#[trigger] s[i]).start_time)
                    <= window_start(iv, f.last().start_time)) by {
                assert(window_start(iv, f.last().start_time) == wlast);
                assert(window_start(iv, x.start_time) == wlast);
                assert(forall|i: int| 0 <= i < sp.len() ==> #[trigger] s[i] == sp[i]);
            }
            assert(forall|i: int, j: int|
                0 <= i < j < f.len() ==> window_start(iv, (#[trigger] f[i]).start_time)
                    < window_start(iv, (#[trigger] f[j]).start_time)) by {
                assert(forall|j: int| 0 <= j < f.len() - 1 ==> #[trigger] f[j] == fp[j]);
                assert(f[f.len() - 1].start_time == fp[fp.len() - 1].start_time);
            }
        } else {
            assert(f == fp.push(x));
            let wx = window_start(iv, x.start_time);
            if fp.len() > 0 {
                let wlast = window_start(iv, fp.last().start_time);
                assert(bucket_matches_window(sp, iv, fp.last()));
                assert(fp.last().start_time == window_rows(
                    sp,
                    iv,
                    wlast,
                ).first().start_time);
                lemma_window_rows_elements(sp, iv, wlast);
                let w0 = window_rows(sp, iv, wlast);
                assert(sp.contains(w0.first()));
                let m = choose|m: int| 0 <= m < sp.len() && sp[m] == w0.first();
                assert(fp.last().start_time <= x.start_time);
                lemma_window_monotone(iv, fp.last().start_time, x.start_time);
                assert(wlast < wx);
            }
            assert(forall|i: int|
                0 <= i < sp.len() ==> window_start(iv, (#[trigger] sp[i]).start_time) != wx);
            lemma_window_rows_none(sp, iv, wx);
            assert forall|j: int| 0 <= j < f.len() implies bucket_matches_window(
                s,
                iv,
                #[trigger] f[j],
            ) by {
                let wj = window_start(iv, f[j].start_time);
                lemma_window_rows_step(s, iv, wj);
                if j < f.len() - 1 {
                    assert(f[j] == fp[j]);
                    assert(wj < wx || fp.len() - 1 == j);
                    assert(wj != wx);
                    assert(window_rows(s, iv, wj) == window_rows(sp, iv, wj));
                    assert(bucket_matches_window(sp, iv, fp[j]));
                } else {
                    assert(f[j] == x);
                    assert(wj == wx);
                    let w = window_rows(s, iv, wj);
                    assert(w == window_rows(sp, iv, wj).push(x));
                    assert(w =~= seq![x]);
                }
            }
            assert(f.len() > 0 ==> forall|i: int|
                0 <= i < s.len() ==> window_start(iv, (#[trigger] s[i]).start_time)
                    <= window_start(iv, f.last().start_time)) by {
                assert(f.last() == x);
                assert(forall|i: int| 0 <= i < sp.len() ==> #[trigger] s[i] == sp[i]);
                if fp.len() > 0 {
                    let wlast = window_start(iv, fp.last().start_time);
                    assert(forall|i: int|
                        0 <= i < sp.len() ==> window_start(
                            iv,
                            (#[trigger] sp[i]).start_time,
                        ) <= wlast);
                    assert(wlast <= wx);
                }
            }
            assert(forall|i: int, j: int|
                0 <= i < j < f.len() ==> window_start(iv, (#[trigger] f[i]).start_time)
                    < window_start(iv, (#[trigger] f[j]).start_time)) by {
                assert(forall|j: int| 0 <= j < f.len() - 1 ==> #[trigger] f[j] == fp[j]);
                assert(f[f.len() - 1] == x);
                if fp.len() > 0 {
                    let wlast = window_start(iv, fp.last().start_time);
                    assert(wlast < wx);
                    assert(forall|i: int|
                        0 <= i < fp.len() ==> window_start(
                            iv,
                            (#[trigger] fp[i]).start_time,
                        ) <= wlast) by {
                        assert(forall|i: int|
                            0 <= i < fp.len() - 1 ==> window_start(
                                iv,
                                (#[trigger] fp[i]).start_time,
                            ) < window_start(iv, fp[fp.len() - 1].start_time));
                    }
                }
            }
        }
    }
}

/// Round trip of the fold over a chronologically ordered sample set:
/// each bucket's start time equals the earliest start time of the raw
/// samples in its window, and its end time and metrics equal the
/// window's last sample's, one bucket per populated window.
pub proof fn lemma_fold_window_roundtrip(iv: u64, s: Seq<Record>)
    requires
        iv > 0,
        sorted_by(s, rel_of(SortKey::StartTime, false)),
    ensures
        forall|j: int|
            0 <= j < fold_rows(iv, s).len() ==> bucket_matches_window(
                s,
                iv,
                #[trigger] fold_rows(iv, s)[j],
            ),
        s.len() > 0 ==> fold_rows(iv, s).len() > 0,
{
    lemma_fold_invariants(iv, s);
}

} // verus!
