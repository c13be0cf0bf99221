//! The vertical scale of the spectrum plot.
use vstd::prelude::*;

verus! {

/// How counts are drawn on the vertical axis.
#[derive(Debug, Clone, Copy, PartialEq, Eq, Structural)]
pub enum YScale {
    Linear,
    Logarithmic,
}

impl Default for YScale {
    fn default() -> (s: Self)
        ensures
            s == YScale::Linear,
    {
        YScale::Linear
    }
}

/// The caption of the vertical axis for a scale.
pub fn y_axis_label(scale: YScale) -> (label: &'static str)
    ensures
        scale == YScale::Linear ==> label@ == "Counts"@,
        scale == YScale::Logarithmic ==> label@ == "Counts (log10)"@,
{
    match scale {
        YScale::Linear => "Counts",
        YScale::Logarithmic => "Counts (log10)",
    }
}

} // verus!
