//! Names of the dose-rate and count-rate units.
use vstd::prelude::*;

verus! {

/// The dose-rate unit: microsievert or microroentgen per hour.
pub fn dose_unit_label(dose_unit_sv: bool) -> (label: &'static str)
    ensures
        dose_unit_sv ==> label@ == "µSv/h"@,
        !dose_unit_sv ==> label@ == "µR/h"@,
{
    if dose_unit_sv {
        "µSv/h"
    } else {
        "µR/h"
    }
}

/// The count-rate unit: counts per minute or per second.
pub fn count_unit_label(count_unit_cpm: bool) -> (label: &'static str)
    ensures
        count_unit_cpm ==> label@ == "cpm"@,
        !count_unit_cpm ==> label@ == "cps"@,
{
    if count_unit_cpm {
        "cpm"
    } else {
        "cps"
    }
}

} // verus!
