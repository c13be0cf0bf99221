//! Dosimeter view: session durations and the actions the view offers.
use vstd::prelude::*;

use std::collections::VecDeque;

use crate::text::{append_str, decimal, decimal_string};

verus! {

/// What the dosimeter controls ask for.
#[derive(Debug, Clone, Copy, PartialEq, Eq, Structural)]
pub enum DosimeterAction {
    ResetDose,
}

/// A dose session's length as `<d>d <h>h <m>m`, leaving out leading zero units (minutes are
/// always shown; seconds never are).
pub open spec fn spec_format_session_duration(secs: u32) -> Seq<char> {
    let days = secs / 86400;
    let hours = (secs % 86400) / 3600;
    let minutes = (secs % 3600) / 60;
    if days > 0 {
        decimal(days as nat) + "d "@ + decimal(hours as nat) + "h "@ + decimal(minutes as nat)
            + "m"@
    } else if hours > 0 {
        decimal(hours as nat) + "h "@ + decimal(minutes as nat) + "m"@
    } else {
        decimal(minutes as nat) + "m"@
    }
}

/// A dose session's length in days, hours and minutes.
pub fn format_session_duration(secs: u32) -> (text: String)
    ensures
        text@ == spec_format_session_duration(secs),
{
    let days = secs / 86_400;
    let hours = (secs % 86_400) / 3_600;
    let minutes = (secs % 3_600) / 60;
    let mut text = String::new();
    if days > 0 {
        let d = decimal_string(days as u64);
        append_str(&mut text, d.as_str());
        append_str(&mut text, "d ");
    }
    if days > 0 || hours > 0 {
        let h = decimal_string(hours as u64);
        append_str(&mut text, h.as_str());
        append_str(&mut text, "h ");
    }
    let m = decimal_string(minutes as u64);
    append_str(&mut text, m.as_str());
    append_str(&mut text, "m");
    assert(text@ =~= spec_format_session_duration(secs));
    text
}

/// Most points the dose history keeps.
pub const MAX_DOSE_SAMPLES: usize = 600;

/// Least time, in seconds of session duration, between two kept points.
pub const MIN_SPACING_SECS: u32 = 1;

/// One point of the accumulated-dose history.
#[derive(Debug, Clone, Copy, PartialEq, Eq, Structural)]
pub struct DoseHistoryPoint {
    pub duration_secs: u32,
    /// Bits of the accumulated dose (an `f32`, never negative).
    pub dose_bits: u32,
}

/// Points in order of strictly increasing session duration, at most `MAX_DOSE_SAMPLES` of them.
pub open spec fn is_dose_history(points: Seq<DoseHistoryPoint>) -> bool {
    &&& points.len() <= MAX_DOSE_SAMPLES
    &&& forall|i: int, j: int|
        0 <= i < j < points.len() ==> #[trigger] points[i].duration_secs
            < #[trigger] points[j].duration_secs
}

/// A new point is kept when the history is empty or it comes at least `MIN_SPACING_SECS`
/// after the newest point.
pub open spec fn accepts_point(points: Seq<DoseHistoryPoint>, duration_secs: u32) -> bool {
    points.len() == 0 || duration_secs >= points.last().duration_secs + MIN_SPACING_SECS
}

/// The history after offering it a point: the point appended when accepted, the oldest point
/// dropped when that makes the history too long.
pub open spec fn spec_push_point(points: Seq<DoseHistoryPoint>, point: DoseHistoryPoint) -> Seq<
    DoseHistoryPoint,
> {
    if !accepts_point(points, point.duration_secs) {
        points
    } else if points.len() + 1 > MAX_DOSE_SAMPLES {
        points.push(point).drop_first()
    } else {
        points.push(point)
    }
}

/// The accumulated-dose history of a session.
pub struct DoseHistory {
    points: VecDeque<DoseHistoryPoint>,
}

impl View for DoseHistory {
    type V = Seq<DoseHistoryPoint>;

    closed spec fn view(&self) -> Seq<DoseHistoryPoint> {
        self.points@
    }
}

impl DoseHistory {
    #[verifier::type_invariant]
    spec fn inv(self) -> bool {
        is_dose_history(self.points@)
    }

    /// An empty history.
    pub fn new() -> (h: Self)
        ensures
            h@ == Seq::<DoseHistoryPoint>::empty(),
    {
        DoseHistory { points: VecDeque::new() }
    }

    /// Number of points kept.
    pub fn len(&self) -> (n: usize)
        ensures
            n == self@.len(),
            is_dose_history(self@),
    {
        proof {
            use_type_invariant(self);
        }
        self.points.len()
    }

    /// The point at `index`, oldest first.
    pub fn get(&self, index: usize) -> (p: DoseHistoryPoint)
        requires
            index < self@.len(),
        ensures
            p == self@[index as int],
    {
        self.points[index]
    }

    /// Drops every point.
    pub fn clear(&mut self)
        ensures
            final(self)@ == Seq::<DoseHistoryPoint>::empty(),
    {
        self.points = VecDeque::new();
    }

    /// Offers a point; returns whether it was kept.
    pub fn push(&mut self, point: DoseHistoryPoint) -> (kept: bool)
        ensures
            kept == accepts_point(old(self)@, point.duration_secs),
            final(self)@ == spec_push_point(old(self)@, point),
            is_dose_history(final(self)@),
    {
        proof {
            use_type_invariant(&*self);
        }
        let n = self.points.len();
        if n > 0 {
            let last = self.points[n - 1];
            if point.duration_secs <= last.duration_secs || point.duration_secs - last.duration_secs
                < MIN_SPACING_SECS {
                return false;
            }
        }
        let ghost before = self.points@;
        let mut points = VecDeque::new();
        std::mem::swap(&mut points, &mut self.points);
        points.push_back(point);
        if points.len() > MAX_DOSE_SAMPLES {
            points.pop_front();
        }
        proof {
            lemma_push_keeps_history(before, point);
            assert(points@ =~= spec_push_point(before, point));
        }
        self.points = points;
        true
    }
}

proof fn lemma_push_keeps_history(points: Seq<DoseHistoryPoint>, point: DoseHistoryPoint)
    requires
        is_dose_history(points),
    ensures
        is_dose_history(spec_push_point(points, point)),
{
    if accepts_point(points, point.duration_secs) {
        let pushed = points.push(point);
        assert forall|i: int, j: int| 0 <= i < j < pushed.len() implies #[trigger] pushed[i].duration_secs
            < #[trigger] pushed[j].duration_secs by {
            if j == pushed.len() - 1 && i < j {
                if i < points.len() - 1 {
                    assert(points[i].duration_secs < points[points.len() - 1].duration_secs);
                }
            }
        }
        if points.len() + 1 > MAX_DOSE_SAMPLES {
            let dropped = pushed.drop_first();
            assert forall|i: int, j: int| 0 <= i < j < dropped.len() implies #[trigger] dropped[i].duration_secs
                < #[trigger] dropped[j].duration_secs by {
                assert(dropped[i] == pushed[i + 1]);
                assert(dropped[j] == pushed[j + 1]);
            }
        }
    }
}

/// Whatever points are offered, the history stays in order of increasing session duration and
/// never holds more than `MAX_DOSE_SAMPLES` points.
pub proof fn law_dose_history_stays_ordered_and_bounded(
    points: Seq<DoseHistoryPoint>,
    point: DoseHistoryPoint,
)
    requires
        is_dose_history(points),
    ensures
        is_dose_history(spec_push_point(points, point)),
{
    lemma_push_keeps_history(points, point);
}

/// A point offered less than `MIN_SPACING_SECS` after the newest one leaves the history as it
/// was.
pub proof fn law_dose_history_ignores_crowded_points(
    points: Seq<DoseHistoryPoint>,
    point: DoseHistoryPoint,
)
    requires
        points.len() > 0,
        point.duration_secs < points.last().duration_secs + MIN_SPACING_SECS,
    ensures
        spec_push_point(points, point) == points,
{
}

} // verus!
