use midgard_history::error::HistoryError;
use midgard_history::model::Sample;
use midgard_history::text::{parse_u64, u64_to_string};
use midgard_history::wire::{get_meta_information, sample_to_swaps, swaps_to_sample, SwapsHistory};

fn wire_record(values: [u64; 38]) -> SwapsHistory {
    let s = |v: u64| v.to_string();
    SwapsHistory {
        start_time: s(values[0]),
        end_time: s(values[1]),
        to_asset_count: s(values[2]),
        to_rune_count: s(values[3]),
        to_trade_count: s(values[4]),
        from_trade_count: s(values[5]),
        synth_mint_count: s(values[6]),
        synth_redeem_count: s(values[7]),
        total_count: s(values[8]),
        to_asset_volume: s(values[9]),
        to_rune_volume: s(values[10]),
        to_trade_volume: s(values[11]),
        from_trade_volume: s(values[12]),
        synth_mint_volume: s(values[13]),
        synth_redeem_volume: s(values[14]),
        total_volume: s(values[15]),
        to_asset_volume_usd: s(values[16]),
        to_rune_volume_usd: s(values[17]),
        to_trade_volume_usd: s(values[18]),
        from_trade_volume_usd: s(values[19]),
        synth_mint_volume_usd: s(values[20]),
        synth_redeem_volume_usd: s(values[21]),
        total_volume_usd: s(values[22]),
        to_asset_fees: s(values[23]),
        to_rune_fees: s(values[24]),
        to_trade_fees: s(values[25]),
        from_trade_fees: s(values[26]),
        synth_mint_fees: s(values[27]),
        synth_redeem_fees: s(values[28]),
        total_fees: s(values[29]),
        to_asset_average_slip: s(values[30]),
        to_rune_average_slip: s(values[31]),
        to_trade_average_slip: s(values[32]),
        from_trade_average_slip: s(values[33]),
        synth_mint_average_slip: s(values[34]),
        synth_redeem_average_slip: s(values[35]),
        average_slip: s(values[36]),
        rune_price_usd: s(values[37]),
    }
}

fn ascending() -> [u64; 38] {
    let mut v = [0u64; 38];
    let mut i = 0;
    while i < 38 {
        v[i] = (i as u64) * 11 + 1;
        i += 1;
    }
    v
}

#[test]
fn parse_accepts_plain_numerals() {
    assert_eq!(parse_u64("0"), Some(0));
    assert_eq!(parse_u64("0042"), Some(42));
    assert_eq!(parse_u64("1729944000"), Some(1729944000));
    assert_eq!(parse_u64("18446744073709551615"), Some(u64::MAX));
}

#[test]
fn parse_rejects_malformed_text() {
    assert_eq!(parse_u64(""), None);
    assert_eq!(parse_u64("-5"), None);
    assert_eq!(parse_u64("1.5"), None);
    assert_eq!(parse_u64("12a"), None);
    assert_eq!(parse_u64(" 12"), None);
    assert_eq!(parse_u64("18446744073709551616"), None);
}

#[test]
fn format_renders_canonical_numerals() {
    assert_eq!(u64_to_string(0), "0");
    assert_eq!(u64_to_string(7), "7");
    assert_eq!(u64_to_string(1729944000), "1729944000");
    assert_eq!(u64_to_string(u64::MAX), "18446744073709551615");
}

#[test]
fn format_parse_roundtrip() {
    for v in [0u64, 1, 9, 10, 99, 100, 4096, 1729944000, u64::MAX] {
        assert_eq!(parse_u64(&u64_to_string(v)), Some(v));
    }
}

#[test]
fn swaps_decode_reads_every_column() {
    let values = ascending();
    let h = wire_record(values);
    let s = swaps_to_sample(&h).expect("well-formed record must decode");
    assert_eq!(s.start_time, values[0]);
    assert_eq!(s.end_time, values[1]);
    assert_eq!(s.fields.len(), 36);
    for i in 0..36 {
        assert_eq!(s.fields[i], values[i + 2]);
    }
}

#[test]
fn swaps_decode_rejects_malformed_field() {
    let mut h = wire_record(ascending());
    h.average_slip = String::from("1.5");
    assert!(matches!(
        swaps_to_sample(&h),
        Err(HistoryError::UpstreamDecodeFailed)
    ));
    let mut h2 = wire_record(ascending());
    h2.start_time = String::from("soon");
    assert!(matches!(
        swaps_to_sample(&h2),
        Err(HistoryError::UpstreamDecodeFailed)
    ));
}

#[test]
fn swaps_encode_decode_roundtrip() {
    let values = ascending();
    let h = wire_record(values);
    let s = swaps_to_sample(&h).expect("decode");
    let back = sample_to_swaps(&s);
    let again = swaps_to_sample(&back).expect("re-decode");
    assert_eq!(again.start_time, s.start_time);
    assert_eq!(again.end_time, s.end_time);
    assert_eq!(again.fields, s.fields);
}

#[test]
fn swaps_encode_renders_decimal_text() {
    let s = Sample {
        start_time: 86400,
        end_time: 90000,
        fields: (0..36u64).collect(),
    };
    let h = sample_to_swaps(&s);
    assert_eq!(h.start_time, "86400");
    assert_eq!(h.end_time, "90000");
    assert_eq!(h.to_asset_count, "0");
    assert_eq!(h.rune_price_usd, "35");
}

#[test]
fn meta_takes_start_from_first_and_rest_from_last() {
    let first = wire_record(ascending());
    let mut last_values = ascending();
    for v in last_values.iter_mut() {
        *v += 1000;
    }
    let last = wire_record(last_values);
    let meta = get_meta_information(&first, &last);
    assert_eq!(meta.start_time, first.start_time);
    assert_eq!(meta.end_time, last.end_time);
    assert_eq!(meta.to_asset_count, last.to_asset_count);
    assert_eq!(meta.total_volume, last.total_volume);
    assert_eq!(meta.average_slip, last.average_slip);
    assert_eq!(meta.rune_price_usd, last.rune_price_usd);
}

#[test]
fn error_descriptions_are_fixed() {
    assert_eq!(HistoryError::UpstreamFetchFailed.describe(), "Failed to fetch data");
    assert_eq!(HistoryError::UpstreamDecodeFailed.describe(), "Failed to parse data");
    assert_eq!(
        HistoryError::StoreWriteFailed.describe(),
        "Failed to insert data into database"
    );
    assert_eq!(
        HistoryError::StoreQueryFailed.describe(),
        "Failed to query data from database"
    );
}
