use radiacode::data_buf::{
    latest_rare_status, latest_real_time_rates, latest_snapshot, rates_record_rank,
};

fn temperature_c(raw: u16) -> f32 {
    (raw as f32 - 2000.0) / 100.0
}

fn battery_percent(raw: u16) -> f32 {
    raw as f32 / 100.0
}

#[test]
fn parses_rare_data_record() {
    let bytes = [
        1u8, 0, 3, 0, 0, 0, 0, 10, 0, 0, 0, 0, 0, 0, 0, 0xd4, 0x10, 0x34, 0x21, 0x00, 0x00,
    ];
    let status = latest_rare_status(&bytes).expect("rare");
    assert_eq!(status.duration_secs, 10);
    assert!((f32::from_bits(status.dose_r_bits) - 0.0).abs() < 0.001);
    assert!((temperature_c(status.temperature_raw) - 23.08).abs() < 0.01);
    assert!((battery_percent(status.charge_raw) - 85.0).abs() < 0.01);
}

#[test]
fn parses_real_time_data_record() {
    let count_rate = 12.5f32.to_le_bytes();
    let dose_rate = 0.000_125f32.to_le_bytes();
    let mut bytes = vec![1u8, 0, 0, 0, 0, 0, 0];
    bytes.extend_from_slice(&count_rate);
    bytes.extend_from_slice(&dose_rate);
    bytes.extend_from_slice(&[10u8, 0, 20, 0, 0, 0, 0]);
    let rates = latest_real_time_rates(&bytes).expect("rates");
    assert!((f32::from_bits(rates.count_rate_cps_bits) - 12.5).abs() < 0.001);
    assert!((f32::from_bits(rates.dose_rate_rh_bits) - 0.000_125).abs() < 1e-9);
    assert!((rates.count_rate_err_tenths as f32 / 10.0 - 1.0).abs() < 0.001);
    assert!((rates.dose_rate_err_tenths as f32 / 10.0 - 2.0).abs() < 0.001);
}

#[test]
fn snapshot_prefers_latest_records() {
    let count_rate = 5.0f32.to_le_bytes();
    let dose_rate = 0.001f32.to_le_bytes();
    let mut bytes = vec![1u8, 0, 0, 0, 0, 0, 0];
    bytes.extend_from_slice(&count_rate);
    bytes.extend_from_slice(&dose_rate);
    bytes.extend_from_slice(&[0u8; 7]);
    bytes.extend_from_slice(&[
        2, 0, 3, 0, 0, 0, 0, 10, 0, 0, 0, 0, 0, 0, 0, 0xd4, 0x10, 0x34, 0x21, 0x00, 0x00,
    ]);
    let snapshot = latest_snapshot(&bytes);
    assert!(snapshot.rates.is_some());
    assert!(snapshot.rare.is_some());
}

#[test]
fn snapshot_finds_rare_after_sequence_gap() {
    let count_rate = 5.0f32.to_le_bytes();
    let dose_rate = 0.001f32.to_le_bytes();
    let mut bytes = vec![9u8, 0, 0, 0, 0, 0, 0];
    bytes.extend_from_slice(&count_rate);
    bytes.extend_from_slice(&dose_rate);
    bytes.extend_from_slice(&[0u8; 7]);
    bytes.extend_from_slice(&[
        2, 0, 3, 0, 0, 0, 0, 10, 0, 0, 0, 0, 0, 0, 0, 0xd4, 0x10, 0x34, 0x21, 0x00, 0x00,
    ]);
    let snapshot = latest_snapshot(&bytes);
    assert!(snapshot.rates.is_some());
    assert!(snapshot.rare.is_some());
}

fn rates_record(seq: u8, gid: u8, count_rate: f32) -> Vec<u8> {
    let mut bytes = vec![seq, 0, gid, 0, 0, 0, 0];
    bytes.extend_from_slice(&count_rate.to_le_bytes());
    bytes.extend_from_slice(&1.0f32.to_le_bytes());
    bytes.extend_from_slice(&[0u8; 7]);
    bytes
}

#[test]
fn newer_sequence_wins_over_earlier_records() {
    let mut bytes = rates_record(5, 0, 1.0);
    bytes.extend(rates_record(7, 0, 2.0));
    bytes.extend(rates_record(6, 0, 3.0));
    let rates = latest_real_time_rates(&bytes).expect("rates");
    assert_eq!(f32::from_bits(rates.count_rate_cps_bits), 2.0);
}

#[test]
fn last_status_record_wins() {
    let mut bytes = vec![1u8, 0, 3, 0, 0, 0, 0, 10, 0, 0, 0, 0, 0, 0, 0, 0xd4, 0x10, 0x34, 0x21, 0, 0];
    bytes.extend_from_slice(&[2u8, 0, 3, 0, 0, 0, 0, 20, 0, 0, 0, 0, 0, 0, 0, 0xd4, 0x10, 0x34, 0x21, 0, 0]);
    let status = latest_rare_status(&bytes).expect("rare");
    assert_eq!(status.duration_secs, 20);
}

#[test]
fn short_dump_yields_nothing() {
    let snapshot = latest_snapshot(&[1u8, 0, 0, 0, 0, 0]);
    assert!(snapshot.rare.is_none());
    assert!(snapshot.rates.is_none());
}

#[test]
fn unknown_record_stops_the_scan() {
    let mut bytes = vec![1u8, 9, 9, 0, 0, 0, 0];
    bytes.extend(rates_record(2, 0, 4.0));
    let snapshot = latest_snapshot(&bytes);
    assert!(snapshot.rates.is_none());
}

#[test]
fn truncated_record_keeps_what_came_before() {
    let mut bytes = rates_record(1, 0, 4.0);
    bytes.extend_from_slice(&[2u8, 0, 3, 0, 0, 0, 0, 10, 0]);
    let snapshot = latest_snapshot(&bytes);
    assert!(snapshot.rates.is_some());
    assert!(snapshot.rare.is_none());
}

#[test]
fn rates_rank_prefers_plain_group() {
    assert!(rates_record_rank(0) > rates_record_rank(1));
}
