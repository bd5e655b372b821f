//! The data model: raw upstream samples, the interval-aligned rows the
//! bucketing fold derives from them, and the mathematical record both are
//! read as in contracts.

use vstd::prelude::*;

verus! {

/// The mathematical reading of a sample or bucket: a half-open time
/// window `[start_time, end_time)` in epoch seconds and the domain's
/// metric columns in declared order.
#[verifier::ext_equal]
pub ghost struct Record {
    pub start_time: u64,
    pub end_time: u64,
    pub fields: Seq<u64>,
}

/// One raw upstream sample: a time window in epoch seconds plus the
/// domain's metric columns, in the domain's declared order, in the
/// upstream's integer base units.
pub struct Sample {
    pub start_time: u64,
    pub end_time: u64,
    pub fields: Vec<u64>,
}

/// A bucket is a derived row of the same shape as a sample: it spans one
/// interval-aligned window of the fold, carrying the first sample's start
/// time and the last sample's end time and metrics.
pub type Bucket = Sample;

impl View for Sample {
    type V = Record;

    open spec fn view(&self) -> Record {
        Record { start_time: self.start_time, end_time: self.end_time, fields: self.fields@ }
    }
}

impl DeepView for Sample {
    type V = Record;

    open spec fn deep_view(&self) -> Record {
        self.view()
    }
}

/// The records a row vector holds, in order.
pub open spec fn records(s: Seq<Sample>) -> Seq<Record> {
    s.map_values(|x: Sample| x@)
}

/// Duplicates a metric column vector.
pub fn copy_fields(v: &Vec<u64>) -> (r: Vec<u64>)
    ensures
        r@ == v@,
{
    let mut out: Vec<u64> = Vec::new();
    let mut i: usize = 0;
    while i < v.len()
        invariant
            0 <= i <= v@.len(),
            out@ =~= v@.take(i as int),
        decreases v@.len() - i,
    {
        out.push(v[i]);
        i = i + 1;
    }
    proof {
        assert(v@.take(v@.len() as int) =~= v@);
    }
    out
}

/// Duplicates a sample; the duplicate reads as the same record.
pub fn dup_sample(s: &Sample) -> (r: Sample)
    ensures
        r@ == s@,
{
    Sample { start_time: s.start_time, end_time: s.end_time, fields: copy_fields(&s.fields) }
}

} // verus!
