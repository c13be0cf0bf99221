//! When the computer sounds the alarm tone.
use vstd::prelude::*;

verus! {

/// Least time between two alarm tones, in milliseconds.
pub const BEEP_SPACING_MILLIS: u64 = 2000;

/// A tone is played when the alarm sound is switched on and no tone was played in the last
/// `BEEP_SPACING_MILLIS` (`millis_since_last` is `None` before the first tone).
pub fn beep_due(enabled: bool, millis_since_last: Option<u64>) -> (due: bool)
    ensures
        due == (enabled && match millis_since_last {
            Some(ms) => ms >= BEEP_SPACING_MILLIS,
            None => true,
        }),
{
    if !enabled {
        return false;
    }
    match millis_since_last {
        Some(ms) => ms >= BEEP_SPACING_MILLIS,
        None => true,
    }
}

} // verus!
