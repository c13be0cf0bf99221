//! Per-channel counts gained between two cumulative spectra.
use vstd::prelude::*;

verus! {

/// Counts gained in each channel: the current count less the previous one, or zero where the
/// count dropped. As long as the shorter of the two spectra.
pub open spec fn spec_delta_counts(previous: Seq<u32>, current: Seq<u32>) -> Seq<u32> {
    let n = if previous.len() <= current.len() {
        previous.len()
    } else {
        current.len()
    };
    Seq::new(
        n,
        |i: int|
            if current[i] >= previous[i] {
                (current[i] - previous[i]) as u32
            } else {
                0u32
            },
    )
}

/// Sum of all channel counts.
pub open spec fn spec_total(values: Seq<u32>) -> int
    decreases values.len(),
{
    if values.len() == 0 {
        0
    } else {
        spec_total(values.drop_last()) + values.last()
    }
}

/// The counts of one spectrogram row: the gain since the previous spectrum while the device
/// keeps accumulating, or the current spectrum itself once its total fell (the device reset).
pub open spec fn spec_interval_row_counts(previous: Seq<u32>, current: Seq<u32>) -> Seq<u32> {
    if spec_total(current) >= spec_total(previous) {
        spec_delta_counts(previous, current)
    } else {
        current
    }
}

/// Counts gained per channel between `previous` and `current`, never negative.
pub fn delta_counts(previous: &[u32], current: &[u32]) -> (delta: Vec<u32>)
    ensures
        delta@ == spec_delta_counts(previous@, current@),
{
    let n = if previous.len() <= current.len() {
        previous.len()
    } else {
        current.len()
    };
    let mut delta: Vec<u32> = Vec::new();
    let mut i: usize = 0;
    while i < n
        invariant
            n <= previous@.len(),
            n <= current@.len(),
            n == spec_delta_counts(previous@, current@).len(),
            i <= n,
            delta@ == spec_delta_counts(previous@, current@).take(i as int),
        decreases n - i,
    {
        let gained = if current[i] >= previous[i] {
            current[i] - previous[i]
        } else {
            0
        };
        delta.push(gained);
        i += 1;
        assert(delta@ =~= spec_delta_counts(previous@, current@).take(i as int));
    }
    assert(spec_delta_counts(previous@, current@).take(n as int) =~= spec_delta_counts(
        previous@,
        current@,
    ));
    delta
}

/// The counts of one spectrogram row between two cumulative spectra.
pub fn interval_row_counts(previous: &[u32], current: &[u32]) -> (row: Vec<u32>)
    requires
        spec_total(previous@) <= u64::MAX,
        spec_total(current@) <= u64::MAX,
    ensures
        row@ == spec_interval_row_counts(previous@, current@),
{
    if row_total(current) >= row_total(previous) {
        delta_counts(previous, current)
    } else {
        vstd::slice::slice_to_vec(current)
    }
}

proof fn lemma_total_take(values: Seq<u32>, i: int)
    requires
        0 <= i < values.len(),
    ensures
        spec_total(values.take(i + 1)) == spec_total(values.take(i)) + values[i],
{
    assert(values.take(i + 1).drop_last() =~= values.take(i));
}

proof fn lemma_total_monotone(values: Seq<u32>, i: int)
    requires
        0 <= i <= values.len(),
    ensures
        0 <= spec_total(values.take(i)) <= spec_total(values),
    decreases values.len() - i,
{
    if i < values.len() {
        lemma_total_take(values, i);
        lemma_total_monotone(values, i + 1);
        lemma_total_nonneg(values.take(i));
    } else {
        assert(values.take(i) =~= values);
        lemma_total_nonneg(values);
    }
}

proof fn lemma_total_nonneg(values: Seq<u32>)
    ensures
        spec_total(values) >= 0,
    decreases values.len(),
{
    if values.len() > 0 {
        lemma_total_nonneg(values.drop_last());
    }
}

/// Sum of all channel counts.
fn row_total(values: &[u32]) -> (total: u64)
    requires
        spec_total(values@) <= u64::MAX,
    ensures
        total == spec_total(values@),
{
    let mut total: u64 = 0;
    let mut i: usize = 0;
    proof {
        assert(values@.take(0) =~= Seq::<u32>::empty());
    }
    while i < values.len()
        invariant
            i <= values@.len(),
            spec_total(values@) <= u64::MAX,
            total == spec_total(values@.take(i as int)),
        decreases values@.len() - i,
    {
        proof {
            lemma_total_take(values@, i as int);
            lemma_total_monotone(values@, i + 1);
        }
        total = total + values[i] as u64;
        i += 1;
    }
    assert(values@.take(i as int) =~= values@);
    total
}

/// A channel's gain never exceeds its current count.
pub proof fn law_delta_never_exceeds_current(previous: Seq<u32>, current: Seq<u32>, i: int)
    requires
        0 <= i < spec_delta_counts(previous, current).len(),
    ensures
        spec_delta_counts(previous, current)[i] <= current[i],
{
}

/// Where a channel did not drop, the previous count plus the gain gives back the current count.
pub proof fn law_delta_restores_current(previous: Seq<u32>, current: Seq<u32>, i: int)
    requires
        0 <= i < spec_delta_counts(previous, current).len(),
        previous[i] <= current[i],
    ensures
        previous[i] + spec_delta_counts(previous, current)[i] == current[i],
{
}

/// Against a spectrum of all zeros, of the same size, the gain is the current spectrum itself.
pub proof fn law_delta_from_zero(previous: Seq<u32>, current: Seq<u32>)
    requires
        previous.len() == current.len(),
        forall|i: int| 0 <= i < previous.len() ==> previous[i] == 0,
    ensures
        spec_delta_counts(previous, current) == current,
{
    assert(spec_delta_counts(previous, current) =~= current);
}

/// After a device reset (the total fell), the row is the current spectrum unchanged.
pub proof fn law_row_after_reset_is_current(previous: Seq<u32>, current: Seq<u32>)
    requires
        spec_total(current) < spec_total(previous),
    ensures
        spec_interval_row_counts(previous, current) == current,
{
}

} // verus!
