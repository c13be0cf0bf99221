//! The tabs of the main window.
use vstd::prelude::*;

verus! {

/// A tab of the main window.
#[derive(Debug, Clone, Copy, PartialEq, Eq, Structural)]
pub enum ViewTab {
    Monitor,
    Spectrum,
    Spectrogram,
    Dosimeter,
    Analysis,
    Settings,
    About,
}

impl Default for ViewTab {
    fn default() -> (t: Self)
        ensures
            t == ViewTab::Monitor,
    {
        ViewTab::Monitor
    }
}

/// The caption shown on a tab.
pub open spec fn spec_view_tab_label(tab: ViewTab) -> Seq<char> {
    match tab {
        ViewTab::Monitor => "Monitor"@,
        ViewTab::Spectrum => "Spectrum"@,
        ViewTab::Spectrogram => "Spectrogram"@,
        ViewTab::Dosimeter => "Dosimeter"@,
        ViewTab::Analysis => "Analysis"@,
        ViewTab::Settings => "Settings"@,
        ViewTab::About => "About"@,
    }
}

impl ViewTab {
    /// The caption shown on this tab.
    pub fn label(self) -> (label: &'static str)
        ensures
            label@ == spec_view_tab_label(self),
    {
        match self {
            ViewTab::Monitor => "Monitor",
            ViewTab::Spectrum => "Spectrum",
            ViewTab::Spectrogram => "Spectrogram",
            ViewTab::Dosimeter => "Dosimeter",
            ViewTab::Analysis => "Analysis",
            ViewTab::Settings => "Settings",
            ViewTab::About => "About",
        }
    }
}

} // verus!
