//! The monitor view's alarm levels and plotted series.
use vstd::prelude::*;

verus! {

/// How a reading compares with the two alarm thresholds.
#[derive(Debug, Clone, Copy, PartialEq, Eq, Structural)]
pub enum AlarmLevel {
    Normal,
    Warning,
    Danger,
}

/// Which reading a monitor plot shows.
#[derive(Debug, Clone, Copy, PartialEq, Eq, Structural)]
pub enum PlotSeries {
    Dose,
    Count,
}

} // verus!
