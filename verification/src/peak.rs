//! The positive counts of a spectrogram, in order, from which the brightness peak is read.
use vstd::prelude::*;
use vstd::seq_lib::{to_multiset_build, to_multiset_insert};

verus! {

/// Counts that light a cell: those above zero.
pub open spec fn positive() -> spec_fn(u32) -> bool {
    |v: u32| v > 0
}

/// The values never decrease from one position to the next.
pub open spec fn sorted_ascending(s: Seq<u32>) -> bool {
    forall|i: int, j: int| 0 <= i <= j < s.len() ==> #[trigger] s[i] <= #[trigger] s[j]
}

/// The positive values of `values`, in ascending order: the same values, counted with their
/// repetitions, as the positive entries of `values`.
pub fn sorted_positive_counts(values: &[u32]) -> (sorted: Vec<u32>)
    ensures
        sorted_ascending(sorted@),
        sorted@.to_multiset() == values@.filter(positive()).to_multiset(),
{
    let mut sorted: Vec<u32> = Vec::new();
    let mut i: usize = 0;
    proof {
        assert(values@.take(0).filter(positive()) =~= Seq::<u32>::empty());
        assert(sorted@ =~= Seq::<u32>::empty());
    }
    while i < values.len()
        invariant
            i <= values@.len(),
            sorted_ascending(sorted@),
            sorted@.to_multiset() == values@.take(i as int).filter(positive()).to_multiset(),
        decreases values@.len() - i,
    {
        let v = values[i];
        proof {
            assert(values@.take(i + 1) =~= values@.take(i as int).push(v));
            values@.take(i as int).lemma_filter_push(v, positive());
            to_multiset_build(values@.take(i as int).filter(positive()), v);
            assert(values@.take(i + 1).filter(positive()) == if v > 0 {
                values@.take(i as int).filter(positive()).push(v)
            } else {
                values@.take(i as int).filter(positive())
            });
        }
        if v > 0 {
            let mut j: usize = 0;
            while j < sorted.len() && sorted[j] < v
                invariant
                    j <= sorted@.len(),
                    forall|k: int| 0 <= k < j ==> #[trigger] sorted@[k] < v,
                decreases sorted@.len() - j,
            {
                j += 1;
            }
            let ghost before = sorted@;
            sorted.insert(j, v);
            proof {
                to_multiset_insert(before, j as int, v);
                assert forall|a: int, b: int| 0 <= a <= b < sorted@.len() implies #[trigger] sorted@[a]
                    <= #[trigger] sorted@[b] by {
                    if a < j && b > j {
                        assert(sorted@[a] == before[a]);
                        assert(sorted@[b] == before[b - 1]);
                    } else if a < j && b == j {
                        assert(sorted@[a] == before[a]);
                    } else if a == j && b > j {
                        assert(sorted@[b] == before[b - 1]);
                        assert(before[j as int] >= v);
                    } else if a > j {
                        assert(sorted@[a] == before[a - 1]);
                        assert(sorted@[b] == before[b - 1]);
                    } else if b < j {
                        assert(sorted@[a] == before[a]);
                        assert(sorted@[b] == before[b]);
                    }
                }
            }
        }
        i += 1;
    }
    proof {
        assert(values@.take(values@.len() as int) =~= values@);
    }
    sorted
}

} // verus!
