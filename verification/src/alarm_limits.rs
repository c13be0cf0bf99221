//! Which alarm registers are read and written, and in what order.
use vstd::prelude::*;

use crate::command::VirtSfr;

verus! {

/// New register values for the alarm thresholds and units; a field left `None` is not written.
/// Thresholds are given already in the device's raw units.
#[derive(Debug, Clone, Copy, PartialEq, Eq, Structural)]
pub struct AlarmRegisterValues {
    pub l1_count_rate: Option<u32>,
    pub l2_count_rate: Option<u32>,
    pub l1_dose_rate: Option<u32>,
    pub l2_dose_rate: Option<u32>,
    pub l1_dose: Option<u32>,
    pub l2_dose: Option<u32>,
    pub dose_unit_sv: Option<bool>,
    pub count_unit_cpm: Option<bool>,
}

/// The write of `value` to `register`, when there is a value.
pub open spec fn optional_write(register: VirtSfr, value: Option<u32>) -> Seq<(VirtSfr, u32)> {
    match value {
        Some(v) => seq![(register, v)],
        None => Seq::empty(),
    }
}

/// The register value of a unit switch: one when set, zero when not.
pub open spec fn flag_value(flag: Option<bool>) -> Option<u32> {
    match flag {
        Some(true) => Some(1u32),
        Some(false) => Some(0u32),
        None => None,
    }
}

/// The register writes for an update, in the order the device receives them: count-rate
/// thresholds, dose-rate thresholds, dose thresholds, dose unit, count-rate unit.
pub open spec fn spec_alarm_register_writes(values: AlarmRegisterValues) -> Seq<(VirtSfr, u32)> {
    optional_write(VirtSfr::CrLev1Cp10s, values.l1_count_rate) + optional_write(
        VirtSfr::CrLev2Cp10s,
        values.l2_count_rate,
    ) + optional_write(VirtSfr::DrLev1UrH, values.l1_dose_rate) + optional_write(
        VirtSfr::DrLev2UrH,
        values.l2_dose_rate,
    ) + optional_write(VirtSfr::DsLev1Ur, values.l1_dose) + optional_write(
        VirtSfr::DsLev2Ur,
        values.l2_dose,
    ) + optional_write(VirtSfr::DsUnits, flag_value(values.dose_unit_sv)) + optional_write(
        VirtSfr::CrUnits,
        flag_value(values.count_unit_cpm),
    )
}

fn push_optional(writes: &mut Vec<(VirtSfr, u32)>, register: VirtSfr, value: Option<u32>)
    ensures
        final(writes)@ == old(writes)@ + optional_write(register, value),
{
    match value {
        Some(v) => {
            writes.push((register, v));
            assert(final(writes)@ =~= old(writes)@ + optional_write(register, value));
        },
        None => {
            assert(old(writes)@ + optional_write(register, value) =~= old(writes)@);
        },
    }
}

fn flag_value_exec(flag: Option<bool>) -> (v: Option<u32>)
    ensures
        v == flag_value(flag),
{
    match flag {
        Some(true) => Some(1),
        Some(false) => Some(0),
        None => None,
    }
}

/// The register writes that carry out an alarm update; empty when the update changes nothing.
pub fn alarm_register_writes(values: &AlarmRegisterValues) -> (writes: Vec<(VirtSfr, u32)>)
    ensures
        writes@ == spec_alarm_register_writes(*values),
{
    let mut writes: Vec<(VirtSfr, u32)> = Vec::new();
    push_optional(&mut writes, VirtSfr::CrLev1Cp10s, values.l1_count_rate);
    push_optional(&mut writes, VirtSfr::CrLev2Cp10s, values.l2_count_rate);
    push_optional(&mut writes, VirtSfr::DrLev1UrH, values.l1_dose_rate);
    push_optional(&mut writes, VirtSfr::DrLev2UrH, values.l2_dose_rate);
    push_optional(&mut writes, VirtSfr::DsLev1Ur, values.l1_dose);
    push_optional(&mut writes, VirtSfr::DsLev2Ur, values.l2_dose);
    push_optional(&mut writes, VirtSfr::DsUnits, flag_value_exec(values.dose_unit_sv));
    push_optional(&mut writes, VirtSfr::CrUnits, flag_value_exec(values.count_unit_cpm));
    assert(writes@ =~= spec_alarm_register_writes(*values));
    writes
}

/// The unit an update is encoded in: the one it sets, else the device's current one.
pub fn resolve_unit(update: Option<bool>, current: bool) -> (unit: bool)
    ensures
        unit == match update {
            Some(u) => u,
            None => current,
        },
{
    match update {
        Some(u) => u,
        None => current,
    }
}

/// The registers read for the alarm limits, in the order their values come back: count-rate
/// thresholds, dose-rate thresholds, dose thresholds, dose unit, count-rate unit.
pub open spec fn spec_alarm_limit_registers() -> Seq<VirtSfr> {
    seq![
        VirtSfr::CrLev1Cp10s,
        VirtSfr::CrLev2Cp10s,
        VirtSfr::DrLev1UrH,
        VirtSfr::DrLev2UrH,
        VirtSfr::DsLev1Ur,
        VirtSfr::DsLev2Ur,
        VirtSfr::DsUnits,
        VirtSfr::CrUnits,
    ]
}

/// The registers read for the alarm limits, in order.
pub fn alarm_limit_registers() -> (ids: Vec<VirtSfr>)
    ensures
        ids@ == spec_alarm_limit_registers(),
{
    let ids = vec![
        VirtSfr::CrLev1Cp10s,
        VirtSfr::CrLev2Cp10s,
        VirtSfr::DrLev1UrH,
        VirtSfr::DrLev2UrH,
        VirtSfr::DsLev1Ur,
        VirtSfr::DsLev2Ur,
        VirtSfr::DsUnits,
        VirtSfr::CrUnits,
    ];
    assert(ids@ =~= spec_alarm_limit_registers());
    ids
}

/// The unit switches among the values read back: the dose unit is sieverts and the count unit
/// is counts per minute when their registers are not zero.
pub fn alarm_units_from_values(values: &[u32]) -> (units: (bool, bool))
    requires
        values@.len() >= 8,
    ensures
        units == (values@[6] != 0, values@[7] != 0),
{
    (values[6] != 0, values[7] != 0)
}

/// The writes of an update name every register at most once.
pub proof fn law_each_register_written_once(values: AlarmRegisterValues, i: int, j: int)
    requires
        0 <= i < j < spec_alarm_register_writes(values).len(),
    ensures
        spec_alarm_register_writes(values)[i].0 != spec_alarm_register_writes(values)[j].0,
{
    lemma_writes_strictly_ordered(values);
}

/// Positions in the write order of the alarm registers.
pub open spec fn alarm_register_rank(r: VirtSfr) -> int {
    match r {
        VirtSfr::CrLev1Cp10s => 0,
        VirtSfr::CrLev2Cp10s => 1,
        VirtSfr::DrLev1UrH => 2,
        VirtSfr::DrLev2UrH => 3,
        VirtSfr::DsLev1Ur => 4,
        VirtSfr::DsLev2Ur => 5,
        VirtSfr::DsUnits => 6,
        VirtSfr::CrUnits => 7,
        _ => 8,
    }
}

proof fn lemma_writes_strictly_ordered(values: AlarmRegisterValues)
    ensures
        forall|i: int, j: int|
            0 <= i < j < spec_alarm_register_writes(values).len() ==> alarm_register_rank(
                #[trigger] spec_alarm_register_writes(values)[i].0,
            ) < alarm_register_rank(#[trigger] spec_alarm_register_writes(values)[j].0),
{
    let p0 = optional_write(VirtSfr::CrLev1Cp10s, values.l1_count_rate);
    let p1 = p0 + optional_write(VirtSfr::CrLev2Cp10s, values.l2_count_rate);
    let p2 = p1 + optional_write(VirtSfr::DrLev1UrH, values.l1_dose_rate);
    let p3 = p2 + optional_write(VirtSfr::DrLev2UrH, values.l2_dose_rate);
    let p4 = p3 + optional_write(VirtSfr::DsLev1Ur, values.l1_dose);
    let p5 = p4 + optional_write(VirtSfr::DsLev2Ur, values.l2_dose);
    let p6 = p5 + optional_write(VirtSfr::DsUnits, flag_value(values.dose_unit_sv));
    let p7 = p6 + optional_write(VirtSfr::CrUnits, flag_value(values.count_unit_cpm));
    lemma_append_ranked(Seq::empty(), VirtSfr::CrLev1Cp10s, values.l1_count_rate);
    lemma_append_ranked(p0, VirtSfr::CrLev2Cp10s, values.l2_count_rate);
    lemma_append_ranked(p1, VirtSfr::DrLev1UrH, values.l1_dose_rate);
    lemma_append_ranked(p2, VirtSfr::DrLev2UrH, values.l2_dose_rate);
    lemma_append_ranked(p3, VirtSfr::DsLev1Ur, values.l1_dose);
    lemma_append_ranked(p4, VirtSfr::DsLev2Ur, values.l2_dose);
    lemma_append_ranked(p5, VirtSfr::DsUnits, flag_value(values.dose_unit_sv));
    lemma_append_ranked(p6, VirtSfr::CrUnits, flag_value(values.count_unit_cpm));
    assert(Seq::<(VirtSfr, u32)>::empty() + p0 =~= p0);
}

/// Appending a write of a later-ranked register keeps the writes strictly ordered.
proof fn lemma_append_ranked(prefix: Seq<(VirtSfr, u32)>, register: VirtSfr, value: Option<u32>)
    requires
        forall|i: int, j: int|
            0 <= i < j < prefix.len() ==> alarm_register_rank(#[trigger] prefix[i].0)
                < alarm_register_rank(#[trigger] prefix[j].0),
        forall|i: int|
            0 <= i < prefix.len() ==> alarm_register_rank(#[trigger] prefix[i].0)
                < alarm_register_rank(register),
    ensures
        forall|i: int, j: int|
            0 <= i < j < (prefix + optional_write(register, value)).len() ==> alarm_register_rank(
                #[trigger] (prefix + optional_write(register, value))[i].0,
            ) < alarm_register_rank(#[trigger] (prefix + optional_write(register, value))[j].0),
        forall|i: int|
            0 <= i < (prefix + optional_write(register, value)).len() ==> alarm_register_rank(
                #[trigger] (prefix + optional_write(register, value))[i].0,
            ) <= alarm_register_rank(register),
{
}

/// The value an update gives register `r`: the threshold field that `r` holds, or one or zero
/// for a unit switch; `None` when the update leaves `r` alone.
pub open spec fn register_value(values: AlarmRegisterValues, r: VirtSfr) -> Option<u32> {
    match r {
        VirtSfr::CrLev1Cp10s => values.l1_count_rate,
        VirtSfr::CrLev2Cp10s => values.l2_count_rate,
        VirtSfr::DrLev1UrH => values.l1_dose_rate,
        VirtSfr::DrLev2UrH => values.l2_dose_rate,
        VirtSfr::DsLev1Ur => values.l1_dose,
        VirtSfr::DsLev2Ur => values.l2_dose,
        VirtSfr::DsUnits => match values.dose_unit_sv {
            Some(true) => Some(1u32),
            Some(false) => Some(0u32),
            None => None,
        },
        VirtSfr::CrUnits => match values.count_unit_cpm {
            Some(true) => Some(1u32),
            Some(false) => Some(0u32),
            None => None,
        },
        _ => None,
    }
}

proof fn lemma_append_keeps_values(
    values: AlarmRegisterValues,
    prefix: Seq<(VirtSfr, u32)>,
    register: VirtSfr,
    value: Option<u32>,
)
    requires
        forall|i: int|
            0 <= i < prefix.len() ==> register_value(values, (#[trigger] prefix[i]).0) == Some(
                prefix[i].1,
            ),
        register_value(values, register) == value,
    ensures
        forall|i: int|
            0 <= i < (prefix + optional_write(register, value)).len() ==> register_value(
                values,
                (#[trigger] (prefix + optional_write(register, value))[i]).0,
            ) == Some((prefix + optional_write(register, value))[i].1),
        value matches Some(v) ==> (prefix + optional_write(register, value)).contains((register, v)),
{
    if let Some(v) = value {
        let s = prefix + optional_write(register, value);
        assert(s[prefix.len() as int] == (register, v));
    }
}

proof fn lemma_contains_grows(s: Seq<(VirtSfr, u32)>, t: Seq<(VirtSfr, u32)>, x: (VirtSfr, u32))
    requires
        s.contains(x),
    ensures
        (s + t).contains(x),
{
    let i = choose|i: int| 0 <= i < s.len() && s[i] == x;
    assert((s + t)[i] == x);
}

/// Every write of an update carries the value the update gives its register, and every register
/// the update gives a value is written with that value.
pub proof fn law_writes_carry_the_update(values: AlarmRegisterValues, r: VirtSfr)
    ensures
        forall|i: int|
            0 <= i < spec_alarm_register_writes(values).len() ==> register_value(
                values,
                (#[trigger] spec_alarm_register_writes(values)[i]).0,
            ) == Some(spec_alarm_register_writes(values)[i].1),
        register_value(values, r) matches Some(v) ==> spec_alarm_register_writes(values).contains(
            (r, v),
        ),
{
    let p0 = Seq::<(VirtSfr, u32)>::empty() + optional_write(VirtSfr::CrLev1Cp10s, values.l1_count_rate);
    let p1 = p0 + optional_write(VirtSfr::CrLev2Cp10s, values.l2_count_rate);
    let p2 = p1 + optional_write(VirtSfr::DrLev1UrH, values.l1_dose_rate);
    let p3 = p2 + optional_write(VirtSfr::DrLev2UrH, values.l2_dose_rate);
    let p4 = p3 + optional_write(VirtSfr::DsLev1Ur, values.l1_dose);
    let p5 = p4 + optional_write(VirtSfr::DsLev2Ur, values.l2_dose);
    let p6 = p5 + optional_write(VirtSfr::DsUnits, flag_value(values.dose_unit_sv));
    let p7 = p6 + optional_write(VirtSfr::CrUnits, flag_value(values.count_unit_cpm));
    assert(Seq::<(VirtSfr, u32)>::empty() + optional_write(VirtSfr::CrLev1Cp10s, values.l1_count_rate)
        =~= optional_write(VirtSfr::CrLev1Cp10s, values.l1_count_rate));
    assert(p7 =~= spec_alarm_register_writes(values));
    lemma_append_keeps_values(values, Seq::empty(), VirtSfr::CrLev1Cp10s, values.l1_count_rate);
    lemma_append_keeps_values(values, p0, VirtSfr::CrLev2Cp10s, values.l2_count_rate);
    lemma_append_keeps_values(values, p1, VirtSfr::DrLev1UrH, values.l1_dose_rate);
    lemma_append_keeps_values(values, p2, VirtSfr::DrLev2UrH, values.l2_dose_rate);
    lemma_append_keeps_values(values, p3, VirtSfr::DsLev1Ur, values.l1_dose);
    lemma_append_keeps_values(values, p4, VirtSfr::DsLev2Ur, values.l2_dose);
    lemma_append_keeps_values(values, p5, VirtSfr::DsUnits, flag_value(values.dose_unit_sv));
    lemma_append_keeps_values(values, p6, VirtSfr::CrUnits, flag_value(values.count_unit_cpm));
    if let Some(v) = register_value(values, r) {
        let x = (r, v);
        match r {
            VirtSfr::CrLev1Cp10s => {
                lemma_contains_grows(p0, p7.skip(p0.len() as int), x);
                assert(p0 + p7.skip(p0.len() as int) =~= p7);
            },
            VirtSfr::CrLev2Cp10s => {
                lemma_contains_grows(p1, p7.skip(p1.len() as int), x);
                assert(p1 + p7.skip(p1.len() as int) =~= p7);
            },
            VirtSfr::DrLev1UrH => {
                lemma_contains_grows(p2, p7.skip(p2.len() as int), x);
                assert(p2 + p7.skip(p2.len() as int) =~= p7);
            },
            VirtSfr::DrLev2UrH => {
                lemma_contains_grows(p3, p7.skip(p3.len() as int), x);
                assert(p3 + p7.skip(p3.len() as int) =~= p7);
            },
            VirtSfr::DsLev1Ur => {
                lemma_contains_grows(p4, p7.skip(p4.len() as int), x);
                assert(p4 + p7.skip(p4.len() as int) =~= p7);
            },
            VirtSfr::DsLev2Ur => {
                lemma_contains_grows(p5, p7.skip(p5.len() as int), x);
                assert(p5 + p7.skip(p5.len() as int) =~= p7);
            },
            VirtSfr::DsUnits => {
                lemma_contains_grows(p6, p7.skip(p6.len() as int), x);
                assert(p6 + p7.skip(p6.len() as int) =~= p7);
            },
            _ => {},
        }
    }
}

/// The alarm registers are read back in the order the writes name them: the value at position
/// `i` is the value of the `i`-th limit (count-rate thresholds, dose-rate thresholds, dose
/// thresholds, dose unit, count unit), and an update setting every limit writes them in
/// exactly the order they are read.
pub proof fn law_reads_follow_write_order(values: AlarmRegisterValues, i: int)
    requires
        0 <= i < 8,
    ensures
        spec_alarm_limit_registers().len() == 8,
        alarm_register_rank(spec_alarm_limit_registers()[i]) == i,
        (values.l1_count_rate is Some && values.l2_count_rate is Some && values.l1_dose_rate is Some
            && values.l2_dose_rate is Some && values.l1_dose is Some && values.l2_dose is Some
            && values.dose_unit_sv is Some && values.count_unit_cpm is Some) ==> (
        spec_alarm_register_writes(values).len() == 8 && spec_alarm_register_writes(values)[i].0
            == spec_alarm_limit_registers()[i]),
{
}

} // verus!
