//! The wire-shaped records of the swaps and stake-pool domains: numeric
//! fields travel as decimal strings and are coerced to numbers at this
//! boundary, in both directions.

use vstd::prelude::*;
use crate::text::{is_u64_numeral, digits_value, decimal_chars, parse_u64, u64_to_string};
use crate::model::{Sample, Record};
use crate::error::HistoryError;

verus! {

/// One swaps-history sample as the upstream wire format carries it:
/// every numeric field is a decimal string.
pub struct SwapsHistory {
    pub start_time: String,
    pub end_time: String,
    pub to_asset_count: String,
    pub to_rune_count: String,
    pub to_trade_count: String,
    pub from_trade_count: String,
    pub synth_mint_count: String,
    pub synth_redeem_count: String,
    pub total_count: String,
    pub to_asset_volume: String,
    pub to_rune_volume: String,
    pub to_trade_volume: String,
    pub from_trade_volume: String,
    pub synth_mint_volume: String,
    pub synth_redeem_volume: String,
    pub total_volume: String,
    pub to_asset_volume_usd: String,
    pub to_rune_volume_usd: String,
    pub to_trade_volume_usd: String,
    pub from_trade_volume_usd: String,
    pub synth_mint_volume_usd: String,
    pub synth_redeem_volume_usd: String,
    pub total_volume_usd: String,
    pub to_asset_fees: String,
    pub to_rune_fees: String,
    pub to_trade_fees: String,
    pub from_trade_fees: String,
    pub synth_mint_fees: String,
    pub synth_redeem_fees: String,
    pub total_fees: String,
    pub to_asset_average_slip: String,
    pub to_rune_average_slip: String,
    pub to_trade_average_slip: String,
    pub from_trade_average_slip: String,
    pub synth_mint_average_slip: String,
    pub synth_redeem_average_slip: String,
    pub average_slip: String,
    pub rune_price_usd: String,
}

/// The summary record of a swaps-history page: the first row's start
/// time and the last row's end time and metric values, in wire shape.
pub struct SwapsHistoryMeta {
    pub start_time: String,
    pub end_time: String,
    pub to_asset_count: String,
    pub to_rune_count: String,
    pub to_trade_count: String,
    pub from_trade_count: String,
    pub synth_mint_count: String,
    pub synth_redeem_count: String,
    pub total_count: String,
    pub to_asset_volume: String,
    pub to_rune_volume: String,
    pub to_trade_volume: String,
    pub from_trade_volume: String,
    pub synth_mint_volume: String,
    pub synth_redeem_volume: String,
    pub total_volume: String,
    pub to_asset_volume_usd: String,
    pub to_rune_volume_usd: String,
    pub to_trade_volume_usd: String,
    pub from_trade_volume_usd: String,
    pub synth_mint_volume_usd: String,
    pub synth_redeem_volume_usd: String,
    pub total_volume_usd: String,
    pub to_asset_fees: String,
    pub to_rune_fees: String,
    pub to_trade_fees: String,
    pub from_trade_fees: String,
    pub synth_mint_fees: String,
    pub synth_redeem_fees: String,
    pub total_fees: String,
    pub to_asset_average_slip: String,
    pub to_rune_average_slip: String,
    pub to_trade_average_slip: String,
    pub from_trade_average_slip: String,
    pub synth_mint_average_slip: String,
    pub synth_redeem_average_slip: String,
    pub average_slip: String,
    pub rune_price_usd: String,
}

/// One swaps-history response: the derived summary and the returned
/// rows.
pub struct SwapsHistoryResponse {
    pub meta: SwapsHistoryMeta,
    pub intervals: Vec<SwapsHistory>,
}

/// One stake-pool record as the wire carries it.
pub struct RunePool {
    pub name: String,
    pub start_time: String,
    pub end_time: String,
    pub depth: String,
    pub count: String,
    pub units: String,
}

/// Whether every numeric field of a wire swaps record is a well-formed
/// decimal numeral that fits the store's integer type.
pub open spec fn swaps_wire_ok(h: SwapsHistory) -> bool {
    &&& is_u64_numeral(h.start_time@)
    &&& is_u64_numeral(h.end_time@)
    &&& is_u64_numeral(h.to_asset_count@)
    &&& is_u64_numeral(h.to_rune_count@)
    &&& is_u64_numeral(h.to_trade_count@)
    &&& is_u64_numeral(h.from_trade_count@)
    &&& is_u64_numeral(h.synth_mint_count@)
    &&& is_u64_numeral(h.synth_redeem_count@)
    &&& is_u64_numeral(h.total_count@)
    &&& is_u64_numeral(h.to_asset_volume@)
    &&& is_u64_numeral(h.to_rune_volume@)
    &&& is_u64_numeral(h.to_trade_volume@)
    &&& is_u64_numeral(h.from_trade_volume@)
    &&& is_u64_numeral(h.synth_mint_volume@)
    &&& is_u64_numeral(h.synth_redeem_volume@)
    &&& is_u64_numeral(h.total_volume@)
    &&& is_u64_numeral(h.to_asset_volume_usd@)
    &&& is_u64_numeral(h.to_rune_volume_usd@)
    &&& is_u64_numeral(h.to_trade_volume_usd@)
    &&& is_u64_numeral(h.from_trade_volume_usd@)
    &&& is_u64_numeral(h.synth_mint_volume_usd@)
    &&& is_u64_numeral(h.synth_redeem_volume_usd@)
    &&& is_u64_numeral(h.total_volume_usd@)
    &&& is_u64_numeral(h.to_asset_fees@)
    &&& is_u64_numeral(h.to_rune_fees@)
    &&& is_u64_numeral(h.to_trade_fees@)
    &&& is_u64_numeral(h.from_trade_fees@)
    &&& is_u64_numeral(h.synth_mint_fees@)
    &&& is_u64_numeral(h.synth_redeem_fees@)
    &&& is_u64_numeral(h.total_fees@)
    &&& is_u64_numeral(h.to_asset_average_slip@)
    &&& is_u64_numeral(h.to_rune_average_slip@)
    &&& is_u64_numeral(h.to_trade_average_slip@)
    &&& is_u64_numeral(h.from_trade_average_slip@)
    &&& is_u64_numeral(h.synth_mint_average_slip@)
    &&& is_u64_numeral(h.synth_redeem_average_slip@)
    &&& is_u64_numeral(h.average_slip@)
    &&& is_u64_numeral(h.rune_price_usd@)
}

/// The value of one numeral field.
pub open spec fn wire_val(s: Seq<char>) -> u64 {
    digits_value(s) as u64
}

/// The record a well-formed wire swaps record decodes to, with the
/// metric columns in the swaps domain's declared order.
pub open spec fn swaps_wire_record(h: SwapsHistory) -> Record {
    Record {
        start_time: wire_val(h.start_time@),
        end_time: wire_val(h.end_time@),
        fields: seq![
            wire_val(h.to_asset_count@),
            wire_val(h.to_rune_count@),
            wire_val(h.to_trade_count@),
            wire_val(h.from_trade_count@),
            wire_val(h.synth_mint_count@),
            wire_val(h.synth_redeem_count@),
            wire_val(h.total_count@),
            wire_val(h.to_asset_volume@),
            wire_val(h.to_rune_volume@),
            wire_val(h.to_trade_volume@),
            wire_val(h.from_trade_volume@),
            wire_val(h.synth_mint_volume@),
            wire_val(h.synth_redeem_volume@),
            wire_val(h.total_volume@),
            wire_val(h.to_asset_volume_usd@),
            wire_val(h.to_rune_volume_usd@),
            wire_val(h.to_trade_volume_usd@),
            wire_val(h.from_trade_volume_usd@),
            wire_val(h.synth_mint_volume_usd@),
            wire_val(h.synth_redeem_volume_usd@),
            wire_val(h.total_volume_usd@),
            wire_val(h.to_asset_fees@),
            wire_val(h.to_rune_fees@),
            wire_val(h.to_trade_fees@),
            wire_val(h.from_trade_fees@),
            wire_val(h.synth_mint_fees@),
            wire_val(h.synth_redeem_fees@),
            wire_val(h.total_fees@),
            wire_val(h.to_asset_average_slip@),
            wire_val(h.to_rune_average_slip@),
            wire_val(h.to_trade_average_slip@),
            wire_val(h.from_trade_average_slip@),
            wire_val(h.synth_mint_average_slip@),
            wire_val(h.synth_redeem_average_slip@),
            wire_val(h.average_slip@),
            wire_val(h.rune_price_usd@),
        ],
    }
}

/// Decodes a wire swaps record into a store sample, coercing every
/// decimal-string field to a number.
///
/// Succeeds exactly when every field is a well-formed numeral; any
/// malformed field is a decode failure.
#[verifier::rlimit(100)]
pub fn swaps_to_sample(h: &SwapsHistory) -> (r: Result<Sample, HistoryError>)
    ensures
        swaps_wire_ok(*h) ==> (match r {
            Ok(s) => s@ == swaps_wire_record(*h),
            Err(_) => false,
        }),
        !swaps_wire_ok(*h) ==> r == Err::<Sample, HistoryError>(HistoryError::UpstreamDecodeFailed),
{
    let start_time = match parse_u64(h.start_time.as_str()) {
        Some(v) => v,
        None => {
            return Err(HistoryError::UpstreamDecodeFailed);
        },
    };
    let end_time = match parse_u64(h.end_time.as_str()) {
        Some(v) => v,
        None => {
            return Err(HistoryError::UpstreamDecodeFailed);
        },
    };
    let mut fields: Vec<u64> = Vec::new();
    match parse_u64(h.to_asset_count.as_str()) {
        Some(v) => fields.push(v),
        None => {
            return Err(HistoryError::UpstreamDecodeFailed);
        },
    }
    match parse_u64(h.to_rune_count.as_str()) {
        Some(v) => fields.push(v),
        None => {
            return Err(HistoryError::UpstreamDecodeFailed);
        },
    }
    match parse_u64(h.to_trade_count.as_str()) {
        Some(v) => fields.push(v),
        None => {
            return Err(HistoryError::UpstreamDecodeFailed);
        },
    }
    match parse_u64(h.from_trade_count.as_str()) {
        Some(v) => fields.push(v),
        None => {
            return Err(HistoryError::UpstreamDecodeFailed);
        },
    }
    match parse_u64(h.synth_mint_count.as_str()) {
        Some(v) => fields.push(v),
        None => {
            return Err(HistoryError::UpstreamDecodeFailed);
        },
    }
    match parse_u64(h.synth_redeem_count.as_str()) {
        Some(v) => fields.push(v),
        None => {
            return Err(HistoryError::UpstreamDecodeFailed);
        },
    }
    match parse_u64(h.total_count.as_str()) {
        Some(v) => fields.push(v),
        None => {
            return Err(HistoryError::UpstreamDecodeFailed);
        },
    }
    match parse_u64(h.to_asset_volume.as_str()) {
        Some(v) => fields.push(v),
        None => {
            return Err(HistoryError::UpstreamDecodeFailed);
        },
    }
    match parse_u64(h.to_rune_volume.as_str()) {
        Some(v) => fields.push(v),
        None => {
            return Err(HistoryError::UpstreamDecodeFailed);
        },
    }
    match parse_u64(h.to_trade_volume.as_str()) {
        Some(v) => fields.push(v),
        None => {
            return Err(HistoryError::UpstreamDecodeFailed);
        },
    }
    match parse_u64(h.from_trade_volume.as_str()) {
        Some(v) => fields.push(v),
        None => {
            return Err(HistoryError::UpstreamDecodeFailed);
        },
    }
    match parse_u64(h.synth_mint_volume.as_str()) {
        Some(v) => fields.push(v),
        None => {
            return Err(HistoryError::UpstreamDecodeFailed);
        },
    }
    match parse_u64(h.synth_redeem_volume.as_str()) {
        Some(v) => fields.push(v),
        None => {
            return Err(HistoryError::UpstreamDecodeFailed);
        },
    }
    match parse_u64(h.total_volume.as_str()) {
        Some(v) => fields.push(v),
        None => {
            return Err(HistoryError::UpstreamDecodeFailed);
        },
    }
    match parse_u64(h.to_asset_volume_usd.as_str()) {
        Some(v) => fields.push(v),
        None => {
            return Err(HistoryError::UpstreamDecodeFailed);
        },
    }
    match parse_u64(h.to_rune_volume_usd.as_str()) {
        Some(v) => fields.push(v),
        None => {
            return Err(HistoryError::UpstreamDecodeFailed);
        },
    }
    match parse_u64(h.to_trade_volume_usd.as_str()) {
        Some(v) => fields.push(v),
        None => {
            return Err(HistoryError::UpstreamDecodeFailed);
        },
    }
    match parse_u64(h.from_trade_volume_usd.as_str()) {
        Some(v) => fields.push(v),
        None => {
            return Err(HistoryError::UpstreamDecodeFailed);
        },
    }
    match parse_u64(h.synth_mint_volume_usd.as_str()) {
        Some(v) => fields.push(v),
        None => {
            return Err(HistoryError::UpstreamDecodeFailed);
        },
    }
    match parse_u64(h.synth_redeem_volume_usd.as_str()) {
        Some(v) => fields.push(v),
        None => {
            return Err(HistoryError::UpstreamDecodeFailed);
        },
    }
    match parse_u64(h.total_volume_usd.as_str()) {
        Some(v) => fields.push(v),
        None => {
            return Err(HistoryError::UpstreamDecodeFailed);
        },
    }
    match parse_u64(h.to_asset_fees.as_str()) {
        Some(v) => fields.push(v),
        None => {
            return Err(HistoryError::UpstreamDecodeFailed);
        },
    }
    match parse_u64(h.to_rune_fees.as_str()) {
        Some(v) => fields.push(v),
        None => {
            return Err(HistoryError::UpstreamDecodeFailed);
        },
    }
    match parse_u64(h.to_trade_fees.as_str()) {
        Some(v) => fields.push(v),
        None => {
            return Err(HistoryError::UpstreamDecodeFailed);
        },
    }
    match parse_u64(h.from_trade_fees.as_str()) {
        Some(v) => fields.push(v),
        None => {
            return Err(HistoryError::UpstreamDecodeFailed);
        },
    }
    match parse_u64(h.synth_mint_fees.as_str()) {
        Some(v) => fields.push(v),
        None => {
            return Err(HistoryError::UpstreamDecodeFailed);
        },
    }
    match parse_u64(h.synth_redeem_fees.as_str()) {
        Some(v) => fields.push(v),
        None => {
            return Err(HistoryError::UpstreamDecodeFailed);
        },
    }
    match parse_u64(h.total_fees.as_str()) {
        Some(v) => fields.push(v),
        None => {
            return Err(HistoryError::UpstreamDecodeFailed);
        },
    }
    match parse_u64(h.to_asset_average_slip.as_str()) {
        Some(v) => fields.push(v),
        None => {
            return Err(HistoryError::UpstreamDecodeFailed);
        },
    }
    match parse_u64(h.to_rune_average_slip.as_str()) {
        Some(v) => fields.push(v),
        None => {
            return Err(HistoryError::UpstreamDecodeFailed);
        },
    }
    match parse_u64(h.to_trade_average_slip.as_str()) {
        Some(v) => fields.push(v),
        None => {
            return Err(HistoryError::UpstreamDecodeFailed);
        },
    }
    match parse_u64(h.from_trade_average_slip.as_str()) {
        Some(v) => fields.push(v),
        None => {
            return Err(HistoryError::UpstreamDecodeFailed);
        },
    }
    match parse_u64(h.synth_mint_average_slip.as_str()) {
        Some(v) => fields.push(v),
        None => {
            return Err(HistoryError::UpstreamDecodeFailed);
        },
    }
    match parse_u64(h.synth_redeem_average_slip.as_str()) {
        Some(v) => fields.push(v),
        None => {
            return Err(HistoryError::UpstreamDecodeFailed);
        },
    }
    match parse_u64(h.average_slip.as_str()) {
        Some(v) => fields.push(v),
        None => {
            return Err(HistoryError::UpstreamDecodeFailed);
        },
    }
    match parse_u64(h.rune_price_usd.as_str()) {
        Some(v) => fields.push(v),
        None => {
            return Err(HistoryError::UpstreamDecodeFailed);
        },
    }
    let s = Sample { start_time, end_time, fields };
    proof {
        assert(s@.fields =~= swaps_wire_record(*h).fields);
        assert(s@ =~= swaps_wire_record(*h));
    }
    Ok(s)
}

/// Encodes a swaps-domain bucket row back into the wire shape, rendering
/// every number as its canonical decimal numeral.
#[verifier::rlimit(100)]
pub fn sample_to_swaps(s: &Sample) -> (r: SwapsHistory)
    requires
        s@.fields.len() == 36,
    ensures
        r.start_time@ == decimal_chars(s@.start_time as int),
        r.end_time@ == decimal_chars(s@.end_time as int),
        forall|i: int|
            0 <= i < 36 ==> #[trigger] swaps_field_text(r, i) == decimal_chars(
                s@.fields[i] as int,
            ),
{
    let r = SwapsHistory {
        start_time: u64_to_string(s.start_time),
        end_time: u64_to_string(s.end_time),
        to_asset_count: u64_to_string(s.fields[0]),
        to_rune_count: u64_to_string(s.fields[1]),
        to_trade_count: u64_to_string(s.fields[2]),
        from_trade_count: u64_to_string(s.fields[3]),
        synth_mint_count: u64_to_string(s.fields[4]),
        synth_redeem_count: u64_to_string(s.fields[5]),
        total_count: u64_to_string(s.fields[6]),
        to_asset_volume: u64_to_string(s.fields[7]),
        to_rune_volume: u64_to_string(s.fields[8]),
        to_trade_volume: u64_to_string(s.fields[9]),
        from_trade_volume: u64_to_string(s.fields[10]),
        synth_mint_volume: u64_to_string(s.fields[11]),
        synth_redeem_volume: u64_to_string(s.fields[12]),
        total_volume: u64_to_string(s.fields[13]),
        to_asset_volume_usd: u64_to_string(s.fields[14]),
        to_rune_volume_usd: u64_to_string(s.fields[15]),
        to_trade_volume_usd: u64_to_string(s.fields[16]),
        from_trade_volume_usd: u64_to_string(s.fields[17]),
        synth_mint_volume_usd: u64_to_string(s.fields[18]),
        synth_redeem_volume_usd: u64_to_string(s.fields[19]),
        total_volume_usd: u64_to_string(s.fields[20]),
        to_asset_fees: u64_to_string(s.fields[21]),
        to_rune_fees: u64_to_string(s.fields[22]),
        to_trade_fees: u64_to_string(s.fields[23]),
        from_trade_fees: u64_to_string(s.fields[24]),
        synth_mint_fees: u64_to_string(s.fields[25]),
        synth_redeem_fees: u64_to_string(s.fields[26]),
        total_fees: u64_to_string(s.fields[27]),
        to_asset_average_slip: u64_to_string(s.fields[28]),
        to_rune_average_slip: u64_to_string(s.fields[29]),
        to_trade_average_slip: u64_to_string(s.fields[30]),
        from_trade_average_slip: u64_to_string(s.fields[31]),
        synth_mint_average_slip: u64_to_string(s.fields[32]),
        synth_redeem_average_slip: u64_to_string(s.fields[33]),
        average_slip: u64_to_string(s.fields[34]),
        rune_price_usd: u64_to_string(s.fields[35]),
    };
    r
}

/// The text of one metric field of a wire swaps record, by the swaps
/// domain's column index.
pub open spec fn swaps_field_text(h: SwapsHistory, i: int) -> Seq<char> {
    if i == 0 {
        h.to_asset_count@
    } else if i == 1 {
        h.to_rune_count@
    } else if i == 2 {
        h.to_trade_count@
    } else if i == 3 {
        h.from_trade_count@
    } else if i == 4 {
        h.synth_mint_count@
    } else if i == 5 {
        h.synth_redeem_count@
    } else if i == 6 {
        h.total_count@
    } else if i == 7 {
        h.to_asset_volume@
    } else if i == 8 {
        h.to_rune_volume@
    } else if i == 9 {
        h.to_trade_volume@
    } else if i == 10 {
        h.from_trade_volume@
    } else if i == 11 {
        h.synth_mint_volume@
    } else if i == 12 {
        h.synth_redeem_volume@
    } else if i == 13 {
        h.total_volume@
    } else if i == 14 {
        h.to_asset_volume_usd@
    } else if i == 15 {
        h.to_rune_volume_usd@
    } else if i == 16 {
        h.to_trade_volume_usd@
    } else if i == 17 {
        h.from_trade_volume_usd@
    } else if i == 18 {
        h.synth_mint_volume_usd@
    } else if i == 19 {
        h.synth_redeem_volume_usd@
    } else if i == 20 {
        h.total_volume_usd@
    } else if i == 21 {
        h.to_asset_fees@
    } else if i == 22 {
        h.to_rune_fees@
    } else if i == 23 {
        h.to_trade_fees@
    } else if i == 24 {
        h.from_trade_fees@
    } else if i == 25 {
        h.synth_mint_fees@
    } else if i == 26 {
        h.synth_redeem_fees@
    } else if i == 27 {
        h.total_fees@
    } else if i == 28 {
        h.to_asset_average_slip@
    } else if i == 29 {
        h.to_rune_average_slip@
    } else if i == 30 {
        h.to_trade_average_slip@
    } else if i == 31 {
        h.from_trade_average_slip@
    } else if i == 32 {
        h.synth_mint_average_slip@
    } else if i == 33 {
        h.synth_redeem_average_slip@
    } else if i == 34 {
        h.average_slip@
    } else {
        h.rune_price_usd@
    }
}

/// Derives the summary record of a swaps page from its first and last
/// returned row: the start time is the first row's, everything else the
/// last row's.
#[verifier::rlimit(100)]
pub fn get_meta_information(start_record: &SwapsHistory, end_record: &SwapsHistory) -> (r:
    SwapsHistoryMeta)
    ensures
        r.start_time@ == start_record.start_time@,
        r.end_time@ == end_record.end_time@,
        forall|i: int|
            0 <= i < 36 ==> #[trigger] swaps_meta_field_text(r, i) == swaps_field_text(
                *end_record,
                i,
            ),
{
    SwapsHistoryMeta {
        start_time: start_record.start_time.clone(),
        end_time: end_record.end_time.clone(),
        to_asset_count: end_record.to_asset_count.clone(),
        to_rune_count: end_record.to_rune_count.clone(),
        to_trade_count: end_record.to_trade_count.clone(),
        from_trade_count: end_record.from_trade_count.clone(),
        synth_mint_count: end_record.synth_mint_count.clone(),
        synth_redeem_count: end_record.synth_redeem_count.clone(),
        total_count: end_record.total_count.clone(),
        to_asset_volume: end_record.to_asset_volume.clone(),
        to_rune_volume: end_record.to_rune_volume.clone(),
        to_trade_volume: end_record.to_trade_volume.clone(),
        from_trade_volume: end_record.from_trade_volume.clone(),
        synth_mint_volume: end_record.synth_mint_volume.clone(),
        synth_redeem_volume: end_record.synth_redeem_volume.clone(),
        total_volume: end_record.total_volume.clone(),
        to_asset_volume_usd: end_record.to_asset_volume_usd.clone(),
        to_rune_volume_usd: end_record.to_rune_volume_usd.clone(),
        to_trade_volume_usd: end_record.to_trade_volume_usd.clone(),
        from_trade_volume_usd: end_record.from_trade_volume_usd.clone(),
        synth_mint_volume_usd: end_record.synth_mint_volume_usd.clone(),
        synth_redeem_volume_usd: end_record.synth_redeem_volume_usd.clone(),
        total_volume_usd: end_record.total_volume_usd.clone(),
        to_asset_fees: end_record.to_asset_fees.clone(),
        to_rune_fees: end_record.to_rune_fees.clone(),
        to_trade_fees: end_record.to_trade_fees.clone(),
        from_trade_fees: end_record.from_trade_fees.clone(),
        synth_mint_fees: end_record.synth_mint_fees.clone(),
        synth_redeem_fees: end_record.synth_redeem_fees.clone(),
        total_fees: end_record.total_fees.clone(),
        to_asset_average_slip: end_record.to_asset_average_slip.clone(),
        to_rune_average_slip: end_record.to_rune_average_slip.clone(),
        to_trade_average_slip: end_record.to_trade_average_slip.clone(),
        from_trade_average_slip: end_record.from_trade_average_slip.clone(),
        synth_mint_average_slip: end_record.synth_mint_average_slip.clone(),
        synth_redeem_average_slip: end_record.synth_redeem_average_slip.clone(),
        average_slip: end_record.average_slip.clone(),
        rune_price_usd: end_record.rune_price_usd.clone(),
    }
}

/// The text of one metric field of a wire summary record, by the swaps
/// domain's column index.
pub open spec fn swaps_meta_field_text(m: SwapsHistoryMeta, i: int) -> Seq<char> {
    if i == 0 {
        m.to_asset_count@
    } else if i == 1 {
        m.to_rune_count@
    } else if i == 2 {
        m.to_trade_count@
    } else if i == 3 {
        m.from_trade_count@
    } else if i == 4 {
        m.synth_mint_count@
    } else if i == 5 {
        m.synth_redeem_count@
    } else if i == 6 {
        m.total_count@
    } else if i == 7 {
        m.to_asset_volume@
    } else if i == 8 {
        m.to_rune_volume@
    } else if i == 9 {
        m.to_trade_volume@
    } else if i == 10 {
        m.from_trade_volume@
    } else if i == 11 {
        m.synth_mint_volume@
    } else if i == 12 {
        m.synth_redeem_volume@
    } else if i == 13 {
        m.total_volume@
    } else if i == 14 {
        m.to_asset_volume_usd@
    } else if i == 15 {
        m.to_rune_volume_usd@
    } else if i == 16 {
        m.to_trade_volume_usd@
    } else if i == 17 {
        m.from_trade_volume_usd@
    } else if i == 18 {
        m.synth_mint_volume_usd@
    } else if i == 19 {
        m.synth_redeem_volume_usd@
    } else if i == 20 {
        m.total_volume_usd@
    } else if i == 21 {
        m.to_asset_fees@
    } else if i == 22 {
        m.to_rune_fees@
    } else if i == 23 {
        m.to_trade_fees@
    } else if i == 24 {
        m.from_trade_fees@
    } else if i == 25 {
        m.synth_mint_fees@
    } else if i == 26 {
        m.synth_redeem_fees@
    } else if i == 27 {
        m.total_fees@
    } else if i == 28 {
        m.to_asset_average_slip@
    } else if i == 29 {
        m.to_rune_average_slip@
    } else if i == 30 {
        m.to_trade_average_slip@
    } else if i == 31 {
        m.from_trade_average_slip@
    } else if i == 32 {
        m.synth_mint_average_slip@
    } else if i == 33 {
        m.synth_redeem_average_slip@
    } else if i == 34 {
        m.average_slip@
    } else {
        m.rune_price_usd@
    }
}

} // verus!
