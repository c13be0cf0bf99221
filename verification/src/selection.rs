//! The status line of the analysis view's sample selection.
use vstd::prelude::*;

use crate::text::{append_str, decimal, decimal_string};

verus! {

/// The status line for a selection with or without a background and with `n` samples.
pub open spec fn spec_selection_status(has_background: bool, n: usize) -> Seq<char> {
    if has_background && n == 0 {
        "Background selected. Add one or more samples."@
    } else if !has_background && n == 1 {
        "Sample selected. Add a background to compute net."@
    } else if !has_background && n > 1 {
        decimal(n as nat) + " samples selected. Add a background to compute net."@
    } else if has_background && n == 1 {
        "Comparison ready."@
    } else if has_background && n > 1 {
        decimal(n as nat) + " sample comparisons ready."@
    } else {
        Seq::empty()
    }
}

/// The status line for the current sample selection.
pub fn selection_status(has_background: bool, sample_count: usize) -> (status: String)
    ensures
        status@ == spec_selection_status(has_background, sample_count),
{
    if has_background && sample_count == 0 {
        String::from_str("Background selected. Add one or more samples.")
    } else if !has_background && sample_count == 1 {
        String::from_str("Sample selected. Add a background to compute net.")
    } else if !has_background && sample_count > 1 {
        let mut s = decimal_string(sample_count as u64);
        append_str(&mut s, " samples selected. Add a background to compute net.");
        s
    } else if has_background && sample_count == 1 {
        String::from_str("Comparison ready.")
    } else if has_background && sample_count > 1 {
        let mut s = decimal_string(sample_count as u64);
        append_str(&mut s, " sample comparisons ready.");
        s
    } else {
        String::new()
    }
}

/// A selected sample as loaded: the spectrum, its name, and how comparing it with the background
/// went (`None` when no background is selected).
pub struct LoadedSample<S, C> {
    pub spectrum: S,
    pub name: String,
    pub comparison: Option<Result<C, String>>,
}

/// A sample ready for the analysis view, with its comparison when there is one.
pub struct SampleAnalysis<S, C> {
    pub spectrum: S,
    pub comparison: Option<C>,
}

/// The analysis of a loaded sample: a failed comparison leaves it without one.
pub open spec fn spec_analysis<S, C>(l: LoadedSample<S, C>) -> SampleAnalysis<S, C> {
    SampleAnalysis {
        spectrum: l.spectrum,
        comparison: match l.comparison {
            Some(Ok(c)) => Some(c),
            _ => None,
        },
    }
}

/// The analysis of a selected sample, when it loaded.
pub open spec fn analysis_of<S, C>(entry: Option<LoadedSample<S, C>>) -> Seq<SampleAnalysis<S, C>> {
    match entry {
        Some(l) => seq![spec_analysis(l)],
        None => Seq::empty(),
    }
}

/// The analyses of the samples that loaded, in order.
pub open spec fn spec_samples<S, C>(loaded: Seq<Option<LoadedSample<S, C>>>) -> Seq<SampleAnalysis<S, C>>
    decreases loaded.len(),
{
    if loaded.len() == 0 {
        Seq::empty()
    } else {
        spec_samples(loaded.drop_last()) + analysis_of(loaded.last())
    }
}

/// The message for one selected sample: a sample that did not load, or one whose comparison
/// failed (its name, then the failure); `None` for a sample without trouble.
pub open spec fn sample_error<S, C>(entry: Option<LoadedSample<S, C>>) -> Option<Seq<char>> {
    match entry {
        None => Some("Failed to load a selected sample."@),
        Some(l) => match l.comparison {
            Some(Err(m)) => Some(l.name@ + ": "@ + m@),
            _ => None,
        },
    }
}

/// The messages of the selected samples, in order.
pub open spec fn spec_sample_errors<S, C>(loaded: Seq<Option<LoadedSample<S, C>>>) -> Seq<Seq<char>>
    decreases loaded.len(),
{
    if loaded.len() == 0 {
        Seq::empty()
    } else {
        spec_sample_errors(loaded.drop_last()) + match sample_error(loaded.last()) {
            Some(m) => seq![m],
            None => Seq::empty(),
        }
    }
}

/// The parts joined with `sep` between each two.
pub open spec fn join_with(parts: Seq<Seq<char>>, sep: Seq<char>) -> Seq<char>
    decreases parts.len(),
{
    if parts.len() == 0 {
        Seq::empty()
    } else if parts.len() == 1 {
        parts[0]
    } else {
        join_with(parts.drop_last(), sep) + sep + parts.last()
    }
}

/// The analyses of the samples that loaded, and the messages of those that did not load or
/// whose comparison failed, joined with " · ".
pub fn rebuild_samples<S, C>(paths_loaded: Vec<Option<LoadedSample<S, C>>>) -> (r: (
    Vec<SampleAnalysis<S, C>>,
    String,
))
    ensures
        r.0@ == spec_samples(paths_loaded@),
        r.1@ == join_with(spec_sample_errors(paths_loaded@), " · "@),
{
    let ghost orig = paths_loaded@;
    let mut rest = paths_loaded;
    let mut samples: Vec<SampleAnalysis<S, C>> = Vec::new();
    let mut errors = String::new();
    let mut any_error = false;
    let ghost mut k: int = 0;
    proof {
        assert(orig.take(0) =~= Seq::<Option<LoadedSample<S, C>>>::empty());
        assert(orig.skip(0) =~= orig);
    }
    while rest.len() > 0
        invariant
            0 <= k <= orig.len(),
            rest@ == orig.skip(k),
            samples@ == spec_samples(orig.take(k)),
            errors@ == join_with(spec_sample_errors(orig.take(k)), " · "@),
            any_error == (spec_sample_errors(orig.take(k)).len() > 0),
        decreases rest@.len(),
    {
        let ghost before = rest@;
        let entry = rest.remove(0);
        proof {
            assert(before[0] == orig[k]);
            assert(rest@ =~= orig.skip(k + 1));
            assert(orig.take(k + 1).drop_last() =~= orig.take(k));
            assert(orig.take(k + 1).last() == orig[k]);
        }
        let ghost errs = spec_sample_errors(orig.take(k));
        let ghost old_errors = errors@;
        let ghost message = sample_error(entry);
        let ghost analysis = analysis_of(entry);
        let ghost old_samples = samples@;
        match entry {
            None => {
                if any_error {
                    append_str(&mut errors, " · ");
                }
                append_str(&mut errors, "Failed to load a selected sample.");
                any_error = true;
            },
            Some(loaded) => {
                let LoadedSample { spectrum, name, comparison } = loaded;
                let kept = match comparison {
                    Some(Ok(c)) => Some(c),
                    Some(Err(m)) => {
                        if any_error {
                            append_str(&mut errors, " · ");
                        }
                        append_str(&mut errors, name.as_str());
                        append_str(&mut errors, ": ");
                        append_str(&mut errors, m.as_str());
                        any_error = true;
                        None
                    },
                    None => None,
                };
                samples.push(SampleAnalysis { spectrum, comparison: kept });
            },
        }
        proof {
            assert(samples@ =~= old_samples + analysis);
            match message {
                Some(m) => {
                    assert(errs.push(m).drop_last() =~= errs);
                    assert(errs + seq![m] =~= errs.push(m));
                    if errs.len() == 0 {
                        assert(old_errors =~= Seq::<char>::empty());
                        assert(errors@ =~= m);
                    } else {
                        assert(errors@ =~= old_errors + " · "@ + m);
                    }
                },
                None => {
                    assert(errs + Seq::<Seq<char>>::empty() =~= errs);
                },
            }
            k = k + 1;
        }
    }
    proof {
        assert(orig.take(k) =~= orig);
    }
    (samples, errors)
}

} // verus!
