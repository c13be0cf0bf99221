//! How the spectrogram takes in each spectrum the device reports: which samples only set the
//! baseline, which add a row, and which are passed over.
use vstd::prelude::*;

verus! {

/// What happens to one reported spectrum.
#[derive(Debug, Clone, Copy, PartialEq, Eq, Structural)]
pub enum IngestStep {
    /// The same sample was seen before: nothing changes.
    Duplicate,
    /// Neither recording nor capture is on: the sample is only marked as seen.
    NotCapturing,
    /// The chosen energy range holds no channel: the sample is only marked as seen.
    EmptyEnergyRange,
    /// The sample becomes the baseline that the next row is measured against.
    StoreBaseline,
    /// The sample adds a row measured against the baseline, and becomes the new baseline.
    AppendRow,
}

/// The part of the spectrogram state that decides what a fresh sample does.
#[derive(Debug, Clone, Copy, PartialEq, Eq, Structural)]
pub struct IngestTracker {
    pub last_ingested_sequence: u64,
    pub skip_next_sample: bool,
    pub reconnect_baseline_pending: bool,
    pub has_baseline: bool,
    pub capture_enabled: bool,
}

/// A sample only sets the baseline while a skip or a reconnect resync is pending.
pub open spec fn spec_baseline_only(t: IngestTracker) -> bool {
    t.skip_next_sample || t.reconnect_baseline_pending
}

/// Capture runs while a recording is open or capture is switched on.
pub open spec fn spec_should_capture(t: IngestTracker, recording: bool) -> bool {
    recording || t.capture_enabled
}

/// The step taken for sample `sequence`.
pub open spec fn spec_plan_ingest(
    t: IngestTracker,
    sequence: u64,
    recording: bool,
    energy_range_empty: bool,
) -> IngestStep {
    if sequence == t.last_ingested_sequence {
        IngestStep::Duplicate
    } else if !spec_should_capture(t, recording) {
        IngestStep::NotCapturing
    } else if energy_range_empty {
        IngestStep::EmptyEnergyRange
    } else if spec_baseline_only(t) || !t.has_baseline {
        IngestStep::StoreBaseline
    } else {
        IngestStep::AppendRow
    }
}

/// The tracker after `step` was taken for sample `sequence`.
pub open spec fn spec_after_ingest(t: IngestTracker, sequence: u64, step: IngestStep) -> IngestTracker {
    match step {
        IngestStep::Duplicate => t,
        IngestStep::NotCapturing | IngestStep::EmptyEnergyRange => IngestTracker {
            last_ingested_sequence: sequence,
            ..t
        },
        IngestStep::StoreBaseline => IngestTracker {
            last_ingested_sequence: sequence,
            skip_next_sample: false,
            reconnect_baseline_pending: false,
            has_baseline: true,
            ..t
        },
        IngestStep::AppendRow => IngestTracker {
            last_ingested_sequence: sequence,
            has_baseline: true,
            ..t
        },
    }
}

/// The tracker once a reconnect asked for a baseline resync.
pub open spec fn spec_reconnected(t: IngestTracker) -> IngestTracker {
    IngestTracker { reconnect_baseline_pending: true, ..t }
}

/// The tracker after sample `sequence` was planned and recorded.
pub open spec fn spec_ingest_once(
    t: IngestTracker,
    sequence: u64,
    recording: bool,
    energy_range_empty: bool,
) -> IngestTracker {
    spec_after_ingest(t, sequence, spec_plan_ingest(t, sequence, recording, energy_range_empty))
}

impl IngestTracker {
    /// A tracker that has seen no sample, with capture off.
    pub open spec fn spec_new() -> IngestTracker {
        IngestTracker {
            last_ingested_sequence: 0,
            skip_next_sample: false,
            reconnect_baseline_pending: false,
            has_baseline: false,
            capture_enabled: false,
        }
    }

    /// A tracker that has seen no sample, with capture off.
    pub fn new() -> (t: Self)
        ensures
            t == IngestTracker::spec_new(),
    {
        IngestTracker {
            last_ingested_sequence: 0,
            skip_next_sample: false,
            reconnect_baseline_pending: false,
            has_baseline: false,
            capture_enabled: false,
        }
    }

    /// Whether samples are captured while `recording` says whether a recording is open.
    pub fn should_capture(&self, recording: bool) -> (r: bool)
        ensures
            r == spec_should_capture(*self, recording),
    {
        recording || self.capture_enabled
    }

    /// The step taken for sample `sequence`.
    pub fn plan(&self, sequence: u64, recording: bool, energy_range_empty: bool) -> (step: IngestStep)
        ensures
            step == spec_plan_ingest(*self, sequence, recording, energy_range_empty),
    {
        if sequence == self.last_ingested_sequence {
            IngestStep::Duplicate
        } else if !self.should_capture(recording) {
            IngestStep::NotCapturing
        } else if energy_range_empty {
            IngestStep::EmptyEnergyRange
        } else if self.skip_next_sample || self.reconnect_baseline_pending || !self.has_baseline {
            IngestStep::StoreBaseline
        } else {
            IngestStep::AppendRow
        }
    }

    /// Records that `step` was taken for sample `sequence`.
    pub fn record(&mut self, sequence: u64, step: IngestStep)
        ensures
            *final(self) == spec_after_ingest(*old(self), sequence, step),
    {
        match step {
            IngestStep::Duplicate => {},
            IngestStep::NotCapturing | IngestStep::EmptyEnergyRange => {
                self.last_ingested_sequence = sequence;
            },
            IngestStep::StoreBaseline => {
                self.last_ingested_sequence = sequence;
                self.skip_next_sample = false;
                self.reconnect_baseline_pending = false;
                self.has_baseline = true;
            },
            IngestStep::AppendRow => {
                self.last_ingested_sequence = sequence;
                self.has_baseline = true;
            },
        }
    }

    /// Plans sample `sequence`, records the step, and returns it.
    pub fn ingest(&mut self, sequence: u64, recording: bool, energy_range_empty: bool) -> (step:
        IngestStep)
        ensures
            step == spec_plan_ingest(*old(self), sequence, recording, energy_range_empty),
            *final(self) == spec_after_ingest(*old(self), sequence, step),
    {
        let step = self.plan(sequence, recording, energy_range_empty);
        self.record(sequence, step);
        step
    }

    /// After a reconnect the first fresh sample only resyncs the baseline.
    pub fn on_reconnect(&mut self)
        ensures
            *final(self) == spec_reconnected(*old(self)),
    {
        self.reconnect_baseline_pending = true;
    }

    /// Entering the spectrogram view with no live series waits for a fresh sample; with a live
    /// series (even one without rows yet) it changes nothing.
    pub fn on_tab_enter(&mut self, has_live_series: bool)
        ensures
            *final(self) == (if has_live_series {
                *old(self)
            } else {
                IngestTracker { skip_next_sample: true, ..*old(self) }
            }),
    {
        if !has_live_series {
            self.skip_next_sample = true;
        }
    }

    /// Clearing the accumulation drops the baseline and waits for the next sample.
    pub fn reset_accumulation(&mut self)
        ensures
            *final(self) == (IngestTracker {
                last_ingested_sequence: 0,
                skip_next_sample: true,
                has_baseline: false,
                ..*old(self)
            }),
    {
        self.last_ingested_sequence = 0;
        self.skip_next_sample = true;
        self.has_baseline = false;
    }

    /// Dropping the live capture forgets every sample; capture stays as it was.
    pub fn reset_live_capture(&mut self)
        ensures
            *final(self) == (IngestTracker {
                last_ingested_sequence: 0,
                skip_next_sample: false,
                reconnect_baseline_pending: false,
                has_baseline: false,
                capture_enabled: old(self).capture_enabled,
            }),
    {
        self.last_ingested_sequence = 0;
        self.skip_next_sample = false;
        self.reconnect_baseline_pending = false;
        self.has_baseline = false;
    }

    /// A disconnect forgets every sample and switches capture off.
    pub fn on_disconnect(&mut self)
        ensures
            *final(self) == IngestTracker::spec_new(),
    {
        self.last_ingested_sequence = 0;
        self.skip_next_sample = false;
        self.reconnect_baseline_pending = false;
        self.has_baseline = false;
        self.capture_enabled = false;
    }
}

/// Taking in the same sample twice in a row changes nothing the second time.
pub proof fn law_repeated_sample_is_ignored(
    t: IngestTracker,
    sequence: u64,
    recording: bool,
    energy_range_empty: bool,
    again_recording: bool,
    again_empty: bool,
)
    ensures
        spec_plan_ingest(
            spec_ingest_once(t, sequence, recording, energy_range_empty),
            sequence,
            again_recording,
            again_empty,
        ) == IngestStep::Duplicate,
        spec_ingest_once(
            spec_ingest_once(t, sequence, recording, energy_range_empty),
            sequence,
            again_recording,
            again_empty,
        ) == spec_ingest_once(t, sequence, recording, energy_range_empty),
{
}

/// While capturing, after a reconnect the first fresh sample only stores a baseline, and the
/// next fresh sample adds a row.
pub proof fn law_reconnect_resyncs_then_appends(t: IngestTracker, first: u64, second: u64)
    requires
        first != t.last_ingested_sequence,
        second != first,
    ensures
        spec_plan_ingest(spec_reconnected(t), first, true, false) == IngestStep::StoreBaseline,
        spec_plan_ingest(spec_ingest_once(spec_reconnected(t), first, true, false), second, true, false)
            == IngestStep::AppendRow,
{
}

/// A row is only ever added against a stored baseline, and every step but a duplicate marks
/// the sample as seen.
pub proof fn law_rows_follow_a_baseline(
    t: IngestTracker,
    sequence: u64,
    recording: bool,
    energy_range_empty: bool,
)
    ensures
        spec_plan_ingest(t, sequence, recording, energy_range_empty) == IngestStep::AppendRow
            ==> t.has_baseline && !spec_baseline_only(t),
        spec_plan_ingest(t, sequence, recording, energy_range_empty) != IngestStep::Duplicate
            ==> spec_ingest_once(t, sequence, recording, energy_range_empty).last_ingested_sequence
            == sequence,
{
}

} // verus!
