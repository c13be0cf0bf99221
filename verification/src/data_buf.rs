//! Records of the device's data buffer: the latest status and the latest real-time rates.
//!
//! Float fields of the records are kept as their raw IEEE-754 bit patterns, and scaled
//! integer fields as the integers the device sent.
use vstd::prelude::*;

use crate::buffer::{
    le_u16_at, le_u16_bytes, le_u32_at, le_u32_bytes, lemma_le_u16_round_trip,
    lemma_le_u32_round_trip, BytesBuffer,
};
use crate::error::{Error, Result};

verus! {

/// The rarely refreshed status record.
#[derive(Debug, Clone, Copy, PartialEq, Eq, Structural)]
pub struct RareStatus {
    pub duration_secs: u32,
    /// Bits of the accumulated dose in roentgen (an `f32`).
    pub dose_r_bits: u32,
    /// Temperature as sent: degrees Celsius times 100, plus 2000.
    pub temperature_raw: u16,
    /// Battery charge as sent: percent times 100.
    pub charge_raw: u16,
}

/// One real-time rates record.
#[derive(Debug, Clone, Copy, PartialEq, Eq, Structural)]
pub struct RealTimeRates {
    /// Bits of the count rate in counts per second (an `f32`).
    pub count_rate_cps_bits: u32,
    /// Bits of the dose rate in roentgen per hour (an `f32`).
    pub dose_rate_rh_bits: u32,
    /// Count-rate error in tenths of a percent.
    pub count_rate_err_tenths: u16,
    /// Dose-rate error in tenths of a percent.
    pub dose_rate_err_tenths: u16,
}

/// The newest status and rates found in one read of the data buffer.
#[derive(Debug, Clone, Copy, PartialEq, Eq, Structural)]
pub struct DataBufSnapshot {
    pub rare: Option<RareStatus>,
    pub rates: Option<RealTimeRates>,
}

impl Default for DataBufSnapshot {
    fn default() -> (s: Self)
        ensures
            s.rare is None,
            s.rates is None,
    {
        DataBufSnapshot { rare: None, rates: None }
    }
}

/// What one record of the data buffer turned out to be.
#[derive(Debug, Clone, Copy, PartialEq, Eq, Structural)]
pub enum RecordParse {
    Skip,
    Rare(RareStatus),
    Rates(RealTimeRates),
}

/// Size of the fixed header (sequence, event id, group id, timestamp offset) of every record.
pub const RECORD_HEADER_LEN: usize = 7;

/// Preference among rates records of the same sequence number, by group id.
pub open spec fn spec_rates_record_rank(gid: u8) -> u8 {
    if gid == 0 {
        3
    } else if gid == 2 {
        2
    } else if gid == 1 {
        1
    } else {
        0
    }
}

/// The record kinds this parser knows how to step over.
pub open spec fn is_known_record(eid: u8, gid: u8) -> bool {
    (eid == 0 && gid <= 9) || (eid == 1 && 1 <= gid <= 3)
}

/// Bytes per sample in a sampled record of group `gid`.
pub open spec fn sample_width(gid: u8) -> nat {
    if gid == 1 {
        8
    } else if gid == 2 {
        16
    } else {
        14
    }
}

/// The body of a record of kind (`eid`, `gid`) at the front of `s`: how many bytes it takes and
/// what it holds; `None` when the kind is unknown or the body is cut short.
pub open spec fn spec_parse_record(eid: u8, gid: u8, s: Seq<u8>) -> Option<(nat, RecordParse)> {
    if eid == 0 && gid == 0 {
        if s.len() >= 15 {
            Some(
                (
                    15,
                    RecordParse::Rates(
                        RealTimeRates {
                            count_rate_cps_bits: le_u32_at(s, 0),
                            dose_rate_rh_bits: le_u32_at(s, 4),
                            count_rate_err_tenths: le_u16_at(s, 8),
                            dose_rate_err_tenths: le_u16_at(s, 10),
                        },
                    ),
                ),
            )
        } else {
            None
        }
    } else if eid == 0 && gid == 1 {
        if s.len() >= 8 {
            Some(
                (
                    8,
                    RecordParse::Rates(
                        RealTimeRates {
                            count_rate_cps_bits: le_u32_at(s, 0),
                            dose_rate_rh_bits: le_u32_at(s, 4),
                            count_rate_err_tenths: 0,
                            dose_rate_err_tenths: 0,
                        },
                    ),
                ),
            )
        } else {
            None
        }
    } else if eid == 0 && gid == 2 {
        if s.len() >= 16 {
            Some(
                (
                    16,
                    RecordParse::Rates(
                        RealTimeRates {
                            count_rate_cps_bits: le_u32_at(s, 4),
                            dose_rate_rh_bits: le_u32_at(s, 8),
                            count_rate_err_tenths: 0,
                            dose_rate_err_tenths: le_u16_at(s, 12),
                        },
                    ),
                ),
            )
        } else {
            None
        }
    } else if eid == 0 && gid == 3 {
        if s.len() >= 14 {
            Some(
                (
                    14,
                    RecordParse::Rare(
                        RareStatus {
                            duration_secs: le_u32_at(s, 0),
                            dose_r_bits: le_u32_at(s, 4),
                            temperature_raw: le_u16_at(s, 8),
                            charge_raw: le_u16_at(s, 10),
                        },
                    ),
                ),
            )
        } else {
            None
        }
    } else if eid == 0 && (gid == 4 || gid == 5) {
        if s.len() >= 16 {
            Some((16, RecordParse::Skip))
        } else {
            None
        }
    } else if eid == 0 && (gid == 6 || gid == 8 || gid == 9) {
        if s.len() >= 6 {
            Some((6, RecordParse::Skip))
        } else {
            None
        }
    } else if eid == 0 && gid == 7 {
        if s.len() >= 4 {
            Some((4, RecordParse::Skip))
        } else {
            None
        }
    } else if eid == 1 && 1 <= gid <= 3 {
        if s.len() >= 6 && s.len() - 6 >= le_u16_at(s, 0) * sample_width(gid) {
            Some(((6 + le_u16_at(s, 0) * sample_width(gid)) as nat, RecordParse::Skip))
        } else {
            None
        }
    } else {
        None
    }
}

/// The best rates record so far, with the sequence number and group id it came with.
pub type BestRates = Option<(u8, u8, RealTimeRates)>;

/// A rates record (`seq`, `gid`) replaces the best so far when it is newer, or as new and of a
/// preferred group.
pub open spec fn replaces_best(best: BestRates, seq: u8, gid: u8) -> bool {
    match best {
        None => true,
        Some((best_seq, best_gid, _)) => seq > best_seq || (seq == best_seq
            && spec_rates_record_rank(gid) > spec_rates_record_rank(best_gid)),
    }
}

/// Reads records from the front of `s` while a whole header is left and each body parses,
/// keeping the last status record and the best rates record.
pub open spec fn scan_records(s: Seq<u8>, rare: Option<RareStatus>, best: BestRates) -> (
    Option<RareStatus>,
    BestRates,
)
    decreases s.len(),
{
    if s.len() < 7 {
        (rare, best)
    } else {
        match spec_parse_record(s[1], s[2], s.skip(7)) {
            None => (rare, best),
            Some((n, record)) => {
                if 7 + n <= s.len() {
                    let rest = s.skip(7 + n as int);
                    match record {
                        RecordParse::Skip => scan_records(rest, rare, best),
                        RecordParse::Rare(status) => scan_records(rest, Some(status), best),
                        RecordParse::Rates(rates) => scan_records(
                            rest,
                            rare,
                            if replaces_best(best, s[0], s[2]) {
                                Some((s[0], s[2], rates))
                            } else {
                                best
                            },
                        ),
                    }
                } else {
                    (rare, best)
                }
            },
        }
    }
}

/// The snapshot that a read of the data buffer holding `data` yields.
pub open spec fn spec_latest_snapshot(data: Seq<u8>) -> DataBufSnapshot {
    let (rare, best) = scan_records(data, None, None);
    DataBufSnapshot {
        rare,
        rates: match best {
            Some((_, _, rates)) => Some(rates),
            None => None,
        },
    }
}

proof fn lemma_parse_record_len(eid: u8, gid: u8, s: Seq<u8>)
    ensures
        spec_parse_record(eid, gid, s) matches Some((n, _)) ==> n <= s.len(),
        spec_parse_record(eid, gid, s) is Some ==> is_known_record(eid, gid),
{
}

/// The last status record in `data`.
pub fn latest_rare_status(data: &[u8]) -> (r: Option<RareStatus>)
    ensures
        r == spec_latest_snapshot(data@).rare,
{
    latest_snapshot(data).rare
}

/// The newest real-time rates record in `data`.
pub fn latest_real_time_rates(data: &[u8]) -> (r: Option<RealTimeRates>)
    ensures
        r == spec_latest_snapshot(data@).rates,
{
    latest_snapshot(data).rates
}

/// The newest real-time rates in a data-buffer dump, or `MonitorDataPending` when the dump holds
/// none yet.
pub fn latest_rates_or_pending(data: &[u8]) -> (r: Result<RealTimeRates>)
    ensures
        spec_latest_snapshot(data@).rates matches Some(rates) ==> r == Ok::<RealTimeRates, Error>(rates),
        spec_latest_snapshot(data@).rates is None ==> (r matches Err(e) && e is MonitorDataPending),
{
    match latest_snapshot(data).rates {
        Some(rates) => Ok(rates),
        None => Err(Error::MonitorDataPending),
    }
}

/// Reads the records of one data-buffer dump, stopping at the first record that is cut short or
/// of an unknown kind, and keeps the last status record and the newest rates record (a higher
/// sequence number wins; on equal numbers the preferred group wins).
pub fn latest_snapshot(data: &[u8]) -> (snapshot: DataBufSnapshot)
    ensures
        snapshot == spec_latest_snapshot(data@),
{
    let mut buffer = BytesBuffer::new(vstd::slice::slice_to_vec(data));
    let mut snapshot = DataBufSnapshot::default();
    let mut best_rates: BestRates = None;
    while buffer.size() >= 7
        invariant_except_break
            scan_records(data@, None, None) == scan_records(buffer@, snapshot.rare, best_rates),
        invariant
            snapshot.rates is None,
        ensures
            scan_records(data@, None, None) == (snapshot.rare, best_rates),
        decreases buffer@.len(),
    {
        let ghost s = buffer@;
        proof {
            lemma_parse_record_len(s[1], s[2], s.skip(7));
            assert(s.skip(1).skip(1).skip(1).skip(4) =~= s.skip(7));
        }
        let seq = match buffer.take_u8() {
            Ok(v) => v,
            Err(_) => {
                break;
            },
        };
        let eid = match buffer.take_u8() {
            Ok(v) => v,
            Err(_) => {
                break;
            },
        };
        let gid = match buffer.take_u8() {
            Ok(v) => v,
            Err(_) => {
                break;
            },
        };
        let _ts_offset = match buffer.take_i32_le() {
            Ok(v) => v,
            Err(_) => {
                break;
            },
        };
        assert(buffer@ =~= s.skip(7));
        match parse_record(&mut buffer, eid, gid) {
            Ok(RecordParse::Rare(status)) => {
                snapshot.rare = Some(status);
            },
            Ok(RecordParse::Rates(rates)) => {
                let replace = match best_rates {
                    None => true,
                    Some((best_seq, best_gid, _)) => seq > best_seq || (seq == best_seq
                        && rates_record_rank(gid) > rates_record_rank(best_gid)),
                };
                if replace {
                    best_rates = Some((seq, gid, rates));
                }
            },
            Ok(RecordParse::Skip) => {},
            Err(_) => {
                assert(scan_records(s, snapshot.rare, best_rates) == (snapshot.rare, best_rates));
                break;
            },
        }
        proof {
            let (n, _) = spec_parse_record(s[1], s[2], s.skip(7))->0;
            assert(s.skip(7).skip(n as int) =~= s.skip(7 + n as int));
        }
    }
    snapshot.rates = match best_rates {
        Some((_, _, rates)) => Some(rates),
        None => None,
    };
    snapshot
}

/// Preference among rates records of the same sequence number, by group id.
pub fn rates_record_rank(gid: u8) -> (rank: u8)
    ensures
        rank == spec_rates_record_rank(gid),
{
    match gid {
        0 => 3,
        2 => 2,
        1 => 1,
        _ => 0,
    }
}

/// Parses the body of one record of kind (`eid`, `gid`) from the front of `buffer`.
fn parse_record(buffer: &mut BytesBuffer, eid: u8, gid: u8) -> (r: Result<RecordParse>)
    ensures
        match spec_parse_record(eid, gid, old(buffer)@) {
            Some((n, record)) => r == Ok::<RecordParse, Error>(record) && final(buffer)@ == old(
                buffer,
            )@.skip(n as int),
            None => r is Err,
        },
        r is Err && is_known_record(eid, gid) ==> r->Err_0 is BufferUnderrun,
        r is Err && !is_known_record(eid, gid) ==> r->Err_0 is ProtocolMismatch,
{
    let ghost s = buffer@;
    if eid == 0 && gid == 0 {
        let count_rate = buffer.take_f32_bits_le()?;
        let dose_rate = buffer.take_f32_bits_le()?;
        let count_rate_err = buffer.take_u16_le()?;
        let dose_rate_err = buffer.take_u16_le()?;
        let _flags = buffer.take_u16_le()?;
        let _rt_flags = buffer.take_u8()?;
        proof {
            assert(s.skip(4).skip(4).skip(2).skip(2).skip(2).skip(1) =~= s.skip(15));
        }
        return Ok(
            RecordParse::Rates(
                RealTimeRates {
                    count_rate_cps_bits: count_rate,
                    dose_rate_rh_bits: dose_rate,
                    count_rate_err_tenths: count_rate_err,
                    dose_rate_err_tenths: dose_rate_err,
                },
            ),
        );
    }
    if eid == 0 && gid == 1 {
        let count_rate = buffer.take_f32_bits_le()?;
        let dose_rate = buffer.take_f32_bits_le()?;
        proof {
            assert(s.skip(4).skip(4) =~= s.skip(8));
        }
        return Ok(
            RecordParse::Rates(
                RealTimeRates {
                    count_rate_cps_bits: count_rate,
                    dose_rate_rh_bits: dose_rate,
                    count_rate_err_tenths: 0,
                    dose_rate_err_tenths: 0,
                },
            ),
        );
    }
    if eid == 0 && gid == 2 {
        let _count = buffer.take_u32_le()?;
        let count_rate = buffer.take_f32_bits_le()?;
        let dose_rate = buffer.take_f32_bits_le()?;
        let dose_rate_err = buffer.take_u16_le()?;
        let _flags = buffer.take_u16_le()?;
        proof {
            assert(s.skip(4).skip(4).skip(4).skip(2).skip(2) =~= s.skip(16));
        }
        return Ok(
            RecordParse::Rates(
                RealTimeRates {
                    count_rate_cps_bits: count_rate,
                    dose_rate_rh_bits: dose_rate,
                    count_rate_err_tenths: 0,
                    dose_rate_err_tenths: dose_rate_err,
                },
            ),
        );
    }
    if eid == 0 && gid == 3 {
        let duration_secs = buffer.take_u32_le()?;
        let dose_r = buffer.take_f32_bits_le()?;
        let temperature_raw = buffer.take_u16_le()?;
        let charge_raw = buffer.take_u16_le()?;
        let _flags = buffer.take_u16_le()?;
        proof {
            assert(s.skip(4).skip(4).skip(2).skip(2).skip(2) =~= s.skip(14));
        }
        return Ok(
            RecordParse::Rare(
                RareStatus { duration_secs, dose_r_bits: dose_r, temperature_raw, charge_raw },
            ),
        );
    }
    if eid == 0 && 4 <= gid && gid <= 5 {
        buffer.skip(16)?;
        return Ok(RecordParse::Skip);
    }
    if eid == 0 && gid == 6 {
        buffer.skip(6)?;
        return Ok(RecordParse::Skip);
    }
    if eid == 0 && gid == 7 {
        buffer.skip(4)?;
        return Ok(RecordParse::Skip);
    }
    if eid == 0 && 8 <= gid && gid <= 9 {
        buffer.skip(6)?;
        return Ok(RecordParse::Skip);
    }
    if eid == 1 && 1 <= gid && gid <= 3 {
        let samples = buffer.take_u16_le()? as usize;
        let _sample_time = buffer.take_u32_le()?;
        let sample_bytes: usize = match gid {
            1 => 8,
            2 => 16,
            _ => 14,
        };
        buffer.skip(samples * sample_bytes)?;
        proof {
            let n = samples * sample_bytes;
            assert(s.skip(2).skip(4).skip(n as int) =~= s.skip(6 + n));
        }
        return Ok(RecordParse::Skip);
    }
    let mut got = String::new();
    crate::text::append_str(&mut got, "eid=");
    let eid_text = crate::text::decimal_string(eid as u64);
    crate::text::append_str(&mut got, eid_text.as_str());
    crate::text::append_str(&mut got, " gid=");
    let gid_text = crate::text::decimal_string(gid as u64);
    crate::text::append_str(&mut got, gid_text.as_str());
    Err(
        Error::ProtocolMismatch {
            expected: String::from_str("known data_buf record"),
            got,
        },
    )
}

/// A complete rates record of group 1 (count rate and dose rate, no error figures).
pub open spec fn short_rates_record(seq: u8, count_bits: u32, dose_bits: u32) -> Seq<u8> {
    seq![seq, 0u8, 1u8, 0u8, 0u8, 0u8, 0u8] + le_u32_bytes(count_bits) + le_u32_bytes(dose_bits)
}

/// A complete status record (its flags zero).
pub open spec fn rare_record(seq: u8, status: RareStatus) -> Seq<u8> {
    seq![seq, 0u8, 3u8, 0u8, 0u8, 0u8, 0u8] + le_u32_bytes(status.duration_secs) + le_u32_bytes(
        status.dose_r_bits,
    ) + le_u16_bytes(status.temperature_raw) + le_u16_bytes(status.charge_raw) + seq![0u8, 0u8]
}

/// The rates that a group-1 record carries.
pub open spec fn short_rates(count_bits: u32, dose_bits: u32) -> RealTimeRates {
    RealTimeRates {
        count_rate_cps_bits: count_bits,
        dose_rate_rh_bits: dose_bits,
        count_rate_err_tenths: 0,
        dose_rate_err_tenths: 0,
    }
}

proof fn lemma_u32_at_skip(s: Seq<u8>, k: int)
    requires
        0 <= k,
        k + 4 <= s.len(),
    ensures
        le_u32_at(s, k) == le_u32_at(s.skip(k), 0),
{
}

proof fn lemma_u16_at_skip(s: Seq<u8>, k: int)
    requires
        0 <= k,
        k + 2 <= s.len(),
    ensures
        le_u16_at(s, k) == le_u16_at(s.skip(k), 0),
{
}

proof fn lemma_scan_short_rates(
    seq: u8,
    count_bits: u32,
    dose_bits: u32,
    rest: Seq<u8>,
    rare: Option<RareStatus>,
    best: BestRates,
)
    ensures
        scan_records(short_rates_record(seq, count_bits, dose_bits) + rest, rare, best)
            == scan_records(
            rest,
            rare,
            if replaces_best(best, seq, 1) {
                Some((seq, 1u8, short_rates(count_bits, dose_bits)))
            } else {
                best
            },
        ),
{
    let s = short_rates_record(seq, count_bits, dose_bits) + rest;
    let body = s.skip(7);
    assert(body =~= le_u32_bytes(count_bits) + (le_u32_bytes(dose_bits) + rest));
    lemma_le_u32_round_trip(count_bits, le_u32_bytes(dose_bits) + rest);
    lemma_u32_at_skip(body, 4);
    assert(body.skip(4) =~= le_u32_bytes(dose_bits) + rest);
    lemma_le_u32_round_trip(dose_bits, rest);
    assert(s.skip(15) =~= rest);
}

proof fn lemma_scan_rare(
    seq: u8,
    status: RareStatus,
    rest: Seq<u8>,
    rare: Option<RareStatus>,
    best: BestRates,
)
    ensures
        scan_records(rare_record(seq, status) + rest, rare, best) == scan_records(
            rest,
            Some(status),
            best,
        ),
{
    let s = rare_record(seq, status) + rest;
    let body = s.skip(7);
    let tail = le_u16_bytes(status.temperature_raw) + le_u16_bytes(status.charge_raw) + seq![
        0u8,
        0u8,
    ] + rest;
    assert(body =~= le_u32_bytes(status.duration_secs) + (le_u32_bytes(status.dose_r_bits)
        + tail));
    lemma_le_u32_round_trip(status.duration_secs, le_u32_bytes(status.dose_r_bits) + tail);
    lemma_u32_at_skip(body, 4);
    assert(body.skip(4) =~= le_u32_bytes(status.dose_r_bits) + tail);
    lemma_le_u32_round_trip(status.dose_r_bits, tail);
    lemma_u16_at_skip(body, 8);
    assert(body.skip(8) =~= le_u16_bytes(status.temperature_raw) + (le_u16_bytes(
        status.charge_raw,
    ) + seq![0u8, 0u8] + rest));
    lemma_le_u16_round_trip(
        status.temperature_raw,
        le_u16_bytes(status.charge_raw) + seq![0u8, 0u8] + rest,
    );
    lemma_u16_at_skip(body, 10);
    assert(body.skip(10) =~= le_u16_bytes(status.charge_raw) + (seq![0u8, 0u8] + rest));
    lemma_le_u16_round_trip(status.charge_raw, seq![0u8, 0u8] + rest);
    assert(s.skip(21) =~= rest);
}

/// Of two rates records, the one with the higher sequence number is reported, whichever comes
/// first; on equal sequence numbers (and equal groups) the earlier one stays.
pub proof fn law_newest_rates_win(
    first_seq: u8,
    first_count_bits: u32,
    first_dose_bits: u32,
    second_seq: u8,
    second_count_bits: u32,
    second_dose_bits: u32,
)
    ensures
        spec_latest_snapshot(
            short_rates_record(first_seq, first_count_bits, first_dose_bits) + short_rates_record(
                second_seq,
                second_count_bits,
                second_dose_bits,
            ),
        ).rates == Some(
            if second_seq > first_seq {
                short_rates(second_count_bits, second_dose_bits)
            } else {
                short_rates(first_count_bits, first_dose_bits)
            },
        ),
{
    let second = short_rates_record(second_seq, second_count_bits, second_dose_bits);
    lemma_scan_short_rates(first_seq, first_count_bits, first_dose_bits, second, None, None);
    let best = Some((first_seq, 1u8, short_rates(first_count_bits, first_dose_bits)));
    lemma_scan_short_rates(
        second_seq,
        second_count_bits,
        second_dose_bits,
        Seq::empty(),
        None,
        best,
    );
    assert(second + Seq::<u8>::empty() =~= second);
}

/// A rates record followed by a status record yields both, whatever their sequence numbers.
pub proof fn law_rates_and_status_both_found(
    rates_seq: u8,
    count_bits: u32,
    dose_bits: u32,
    status_seq: u8,
    status: RareStatus,
)
    ensures
        spec_latest_snapshot(
            short_rates_record(rates_seq, count_bits, dose_bits) + rare_record(status_seq, status),
        ) == (DataBufSnapshot {
            rare: Some(status),
            rates: Some(short_rates(count_bits, dose_bits)),
        }),
{
    let second = rare_record(status_seq, status);
    lemma_scan_short_rates(rates_seq, count_bits, dose_bits, second, None, None);
    let best = Some((rates_seq, 1u8, short_rates(count_bits, dose_bits)));
    lemma_scan_rare(status_seq, status, Seq::empty(), None, best);
    assert(second + Seq::<u8>::empty() =~= second);
}

/// Of two status records, the later one is reported.
pub proof fn law_last_status_wins(
    first_seq: u8,
    first: RareStatus,
    second_seq: u8,
    second: RareStatus,
)
    ensures
        spec_latest_snapshot(rare_record(first_seq, first) + rare_record(second_seq, second)).rare
            == Some(second),
{
    let tail = rare_record(second_seq, second);
    lemma_scan_rare(first_seq, first, tail, None, None);
    lemma_scan_rare(second_seq, second, Seq::empty(), Some(first), None);
    assert(tail + Seq::<u8>::empty() =~= tail);
}

/// A dump too short to hold one record header yields nothing.
pub proof fn law_short_dump_is_empty(data: Seq<u8>)
    requires
        data.len() < 7,
    ensures
        spec_latest_snapshot(data) == (DataBufSnapshot { rare: None, rates: None }),
{
}

/// A complete rates record of group 2: a sample count, count-rate bits, dose-rate bits, the
/// dose-rate error in tenths of a percent, then flags.
pub open spec fn counted_rates_record(
    seq: u8,
    timestamp: u32,
    count: u32,
    count_bits: u32,
    dose_bits: u32,
    dose_err: u16,
    flags: u16,
) -> Seq<u8> {
    seq![seq, 0u8, 2u8] + le_u32_bytes(timestamp) + le_u32_bytes(count) + le_u32_bytes(count_bits)
        + le_u32_bytes(dose_bits) + le_u16_bytes(dose_err) + le_u16_bytes(flags)
}

/// A complete rates record of group 0: count-rate bits, dose-rate bits, the count-rate and
/// dose-rate errors in tenths of a percent, flags, then real-time flags.
pub open spec fn full_rates_record(
    seq: u8,
    timestamp: u32,
    count_bits: u32,
    dose_bits: u32,
    count_err: u16,
    dose_err: u16,
    flags: u16,
    rt_flags: u8,
) -> Seq<u8> {
    seq![seq, 0u8, 0u8] + le_u32_bytes(timestamp) + le_u32_bytes(count_bits) + le_u32_bytes(
        dose_bits,
    ) + le_u16_bytes(count_err) + le_u16_bytes(dose_err) + le_u16_bytes(flags) + seq![rt_flags]
}

/// A dump holding one group-2 rates record reports the count rate, dose rate and dose-rate error
/// that the record carries, in those fields, and no count-rate error.
pub proof fn law_counted_rates_record_read_back(
    seq: u8,
    timestamp: u32,
    count: u32,
    count_bits: u32,
    dose_bits: u32,
    dose_err: u16,
    flags: u16,
)
    ensures
        spec_latest_snapshot(
            counted_rates_record(seq, timestamp, count, count_bits, dose_bits, dose_err, flags),
        ) == (DataBufSnapshot {
            rare: None,
            rates: Some(
                RealTimeRates {
                    count_rate_cps_bits: count_bits,
                    dose_rate_rh_bits: dose_bits,
                    count_rate_err_tenths: 0,
                    dose_rate_err_tenths: dose_err,
                },
            ),
        }),
{
    let s = counted_rates_record(seq, timestamp, count, count_bits, dose_bits, dose_err, flags);
    let body = s.skip(7);
    let t3 = le_u16_bytes(dose_err) + le_u16_bytes(flags);
    let t2 = le_u32_bytes(dose_bits) + t3;
    let t1 = le_u32_bytes(count_bits) + t2;
    assert(body =~= le_u32_bytes(count) + t1);
    lemma_u32_at_skip(body, 4);
    assert(body.skip(4) =~= t1);
    lemma_le_u32_round_trip(count_bits, t2);
    lemma_u32_at_skip(body, 8);
    assert(body.skip(8) =~= t2);
    lemma_le_u32_round_trip(dose_bits, t3);
    lemma_u16_at_skip(body, 12);
    assert(body.skip(12) =~= t3);
    lemma_le_u16_round_trip(dose_err, le_u16_bytes(flags));
    assert(s[1] == 0u8 && s[2] == 2u8);
    let rates = RealTimeRates {
        count_rate_cps_bits: count_bits,
        dose_rate_rh_bits: dose_bits,
        count_rate_err_tenths: 0,
        dose_rate_err_tenths: dose_err,
    };
    assert(s.len() == 23);
    assert(spec_parse_record(s[1], s[2], body) == Some((16nat, RecordParse::Rates(rates))));
    assert(s.skip(23).len() == 0);
    assert(scan_records(s.skip(23), None, Some((s[0], s[2], rates))) == (
        None::<RareStatus>,
        Some((s[0], s[2], rates)),
    ));
    assert(scan_records(s, None, None) == (None::<RareStatus>, Some((s[0], s[2], rates))));
}

/// A dump holding one group-0 rates record reports the count rate, dose rate and both errors
/// that the record carries, each in its own field.
pub proof fn law_full_rates_record_read_back(
    seq: u8,
    timestamp: u32,
    count_bits: u32,
    dose_bits: u32,
    count_err: u16,
    dose_err: u16,
    flags: u16,
    rt_flags: u8,
)
    ensures
        spec_latest_snapshot(
            full_rates_record(seq, timestamp, count_bits, dose_bits, count_err, dose_err, flags, rt_flags),
        ) == (DataBufSnapshot {
            rare: None,
            rates: Some(
                RealTimeRates {
                    count_rate_cps_bits: count_bits,
                    dose_rate_rh_bits: dose_bits,
                    count_rate_err_tenths: count_err,
                    dose_rate_err_tenths: dose_err,
                },
            ),
        }),
{
    let s = full_rates_record(seq, timestamp, count_bits, dose_bits, count_err, dose_err, flags, rt_flags);
    let body = s.skip(7);
    let t3 = le_u16_bytes(dose_err) + le_u16_bytes(flags) + seq![rt_flags];
    let t2 = le_u16_bytes(count_err) + t3;
    let t1 = le_u32_bytes(dose_bits) + t2;
    assert(body =~= le_u32_bytes(count_bits) + t1);
    lemma_le_u32_round_trip(count_bits, t1);
    lemma_u32_at_skip(body, 4);
    assert(body.skip(4) =~= t1);
    lemma_le_u32_round_trip(dose_bits, t2);
    lemma_u16_at_skip(body, 8);
    assert(body.skip(8) =~= t2);
    lemma_le_u16_round_trip(count_err, t3);
    lemma_u16_at_skip(body, 10);
    assert(body.skip(10) =~= t3);
    lemma_le_u16_round_trip(dose_err, le_u16_bytes(flags) + seq![rt_flags]);
    assert(s[1] == 0u8 && s[2] == 0u8);
    let rates = RealTimeRates {
        count_rate_cps_bits: count_bits,
        dose_rate_rh_bits: dose_bits,
        count_rate_err_tenths: count_err,
        dose_rate_err_tenths: dose_err,
    };
    assert(s.len() == 22);
    assert(spec_parse_record(s[1], s[2], body) == Some((15nat, RecordParse::Rates(rates))));
    assert(s.skip(22).len() == 0);
    assert(scan_records(s.skip(22), None, Some((s[0], s[2], rates))) == (
        None::<RareStatus>,
        Some((s[0], s[2], rates)),
    ));
    assert(scan_records(s, None, None) == (None::<RareStatus>, Some((s[0], s[2], rates))));
}

/// A dump holding one status record reports the duration, dose, temperature and charge that the
/// record carries, each in its own field, and no rates.
pub proof fn law_status_record_read_back(seq: u8, status: RareStatus)
    ensures
        spec_latest_snapshot(rare_record(seq, status)) == (DataBufSnapshot {
            rare: Some(status),
            rates: None,
        }),
{
    lemma_scan_rare(seq, status, Seq::empty(), None, None);
    assert(rare_record(seq, status) + Seq::<u8>::empty() =~= rare_record(seq, status));
}

/// A dump holding one group-1 rates record reports its count rate and dose rate, each in its own
/// field, and no error figures.
pub proof fn law_short_rates_record_read_back(seq: u8, count_bits: u32, dose_bits: u32)
    ensures
        spec_latest_snapshot(short_rates_record(seq, count_bits, dose_bits)) == (DataBufSnapshot {
            rare: None,
            rates: Some(
                RealTimeRates {
                    count_rate_cps_bits: count_bits,
                    dose_rate_rh_bits: dose_bits,
                    count_rate_err_tenths: 0,
                    dose_rate_err_tenths: 0,
                },
            ),
        }),
{
    lemma_scan_short_rates(seq, count_bits, dose_bits, Seq::empty(), None, None);
    assert(short_rates_record(seq, count_bits, dose_bits) + Seq::<u8>::empty()
        =~= short_rates_record(seq, count_bits, dose_bits));
}

/// The rates a group-0 record carries.
pub open spec fn full_rates(count_bits: u32, dose_bits: u32, count_err: u16, dose_err: u16) -> RealTimeRates {
    RealTimeRates {
        count_rate_cps_bits: count_bits,
        dose_rate_rh_bits: dose_bits,
        count_rate_err_tenths: count_err,
        dose_rate_err_tenths: dose_err,
    }
}

proof fn lemma_scan_full_rates(
    seq: u8,
    count_bits: u32,
    dose_bits: u32,
    count_err: u16,
    dose_err: u16,
    rest: Seq<u8>,
    rare: Option<RareStatus>,
    best: BestRates,
)
    ensures
        scan_records(full_rates_record(seq, 0, count_bits, dose_bits, count_err, dose_err, 0, 0) + rest, rare, best)
            == scan_records(
            rest,
            rare,
            if replaces_best(best, seq, 0) {
                Some((seq, 0u8, full_rates(count_bits, dose_bits, count_err, dose_err)))
            } else {
                best
            },
        ),
{
    let s = full_rates_record(seq, 0, count_bits, dose_bits, count_err, dose_err, 0, 0) + rest;
    let body = s.skip(7);
    let t3 = le_u16_bytes(dose_err) + (le_u16_bytes(0) + seq![0u8] + rest);
    let t2 = le_u16_bytes(count_err) + t3;
    let t1 = le_u32_bytes(dose_bits) + t2;
    assert(body =~= le_u32_bytes(count_bits) + t1);
    lemma_le_u32_round_trip(count_bits, t1);
    lemma_u32_at_skip(body, 4);
    assert(body.skip(4) =~= t1);
    lemma_le_u32_round_trip(dose_bits, t2);
    lemma_u16_at_skip(body, 8);
    assert(body.skip(8) =~= t2);
    lemma_le_u16_round_trip(count_err, t3);
    lemma_u16_at_skip(body, 10);
    assert(body.skip(10) =~= t3);
    lemma_le_u16_round_trip(dose_err, le_u16_bytes(0) + seq![0u8] + rest);
    assert(s[0] == seq && s[1] == 0u8 && s[2] == 0u8);
    assert(spec_parse_record(s[1], s[2], body) == Some(
        (15nat, RecordParse::Rates(full_rates(count_bits, dose_bits, count_err, dose_err))),
    ));
    assert(s.skip(22) =~= rest);
}

/// Of a group-0 and a group-1 rates record with the same sequence number, the group-0 record
/// (the one with error figures) is reported, whichever comes first.
pub proof fn law_full_rates_preferred_on_equal_sequence(
    seq: u8,
    count_bits: u32,
    dose_bits: u32,
    count_err: u16,
    dose_err: u16,
    short_count_bits: u32,
    short_dose_bits: u32,
)
    ensures
        spec_latest_snapshot(
            full_rates_record(seq, 0, count_bits, dose_bits, count_err, dose_err, 0, 0)
                + short_rates_record(seq, short_count_bits, short_dose_bits),
        ).rates == Some(full_rates(count_bits, dose_bits, count_err, dose_err)),
        spec_latest_snapshot(
            short_rates_record(seq, short_count_bits, short_dose_bits) + full_rates_record(
                seq,
                0,
                count_bits,
                dose_bits,
                count_err,
                dose_err,
                0,
                0,
            ),
        ).rates == Some(full_rates(count_bits, dose_bits, count_err, dose_err)),
{
    let full = full_rates_record(seq, 0, count_bits, dose_bits, count_err, dose_err, 0, 0);
    let short = short_rates_record(seq, short_count_bits, short_dose_bits);
    let fr = full_rates(count_bits, dose_bits, count_err, dose_err);
    lemma_scan_full_rates(seq, count_bits, dose_bits, count_err, dose_err, short, None, None);
    lemma_scan_short_rates(seq, short_count_bits, short_dose_bits, Seq::empty(), None, Some((seq, 0u8, fr)));
    assert(short + Seq::<u8>::empty() =~= short);
    lemma_scan_short_rates(seq, short_count_bits, short_dose_bits, full, None, None);
    let sb = Some((seq, 1u8, short_rates(short_count_bits, short_dose_bits)));
    lemma_scan_full_rates(seq, count_bits, dose_bits, count_err, dose_err, Seq::empty(), None, sb);
    assert(full + Seq::<u8>::empty() =~= full);
}

/// A record of a kind that carries nothing the snapshot keeps (groups 4 to 9 of event 0) is
/// stepped over whole: its body is 16 bytes for groups 4 and 5, 4 bytes for group 7 and 6 bytes
/// for groups 6, 8 and 9, and the rates record after it is read.
pub proof fn law_skipped_records_are_stepped_over(
    seq: u8,
    gid: u8,
    body: Seq<u8>,
    rates_seq: u8,
    count_bits: u32,
    dose_bits: u32,
)
    requires
        ((gid == 4 || gid == 5) && body.len() == 16) || (gid == 7 && body.len() == 4) || ((gid == 6
            || gid == 8 || gid == 9) && body.len() == 6),
    ensures
        spec_latest_snapshot(
            seq![seq, 0u8, gid, 0u8, 0u8, 0u8, 0u8] + body + short_rates_record(
                rates_seq,
                count_bits,
                dose_bits,
            ),
        ) == (DataBufSnapshot { rare: None, rates: Some(short_rates(count_bits, dose_bits)) }),
{
    let rec = short_rates_record(rates_seq, count_bits, dose_bits);
    let s = seq![seq, 0u8, gid, 0u8, 0u8, 0u8, 0u8] + body + rec;
    assert(s[1] == 0u8 && s[2] == gid);
    assert(s.skip(7) =~= body + rec);
    assert(spec_parse_record(0u8, gid, body + rec) == Some((body.len(), RecordParse::Skip)));
    assert(s.skip(7 + body.len() as int) =~= rec);
    lemma_scan_short_rates(rates_seq, count_bits, dose_bits, Seq::empty(), None, None);
    assert(rec + Seq::<u8>::empty() =~= rec);
}

} // verus!
