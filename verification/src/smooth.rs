//! Smoothing settings of the spectrum view.
use vstd::prelude::*;

verus! {

/// The smoothing window clamped to the supported range of one to sixteen channels.
pub fn normalize_window(value: usize) -> (window: usize)
    ensures
        window == if value < 1 {
            1
        } else if value > 16 {
            16
        } else {
            value
        },
{
    if value < 1 {
        1
    } else if value > 16 {
        16
    } else {
        value
    }
}

} // verus!
