//! Palettes of the spectrogram.
use vstd::prelude::*;

use crate::text::{chars_of, eq_chars};

verus! {

/// A spectrogram palette.
#[derive(Debug, Clone, Copy, PartialEq, Eq, Structural)]
pub enum ColorScheme {
    Viridis,
    Inferno,
    Turbo,
}

impl Default for ColorScheme {
    fn default() -> (c: Self)
        ensures
            c == ColorScheme::Viridis,
    {
        ColorScheme::Viridis
    }
}

/// The name of a palette, as shown and as stored in the settings.
pub open spec fn spec_color_scheme_label(scheme: ColorScheme) -> Seq<char> {
    match scheme {
        ColorScheme::Viridis => "Viridis"@,
        ColorScheme::Inferno => "Inferno"@,
        ColorScheme::Turbo => "Turbo"@,
    }
}

/// The palette a stored name stands for; an unknown name falls back to Viridis.
pub open spec fn spec_from_persisted(value: Seq<char>) -> ColorScheme {
    if value == "Inferno"@ {
        ColorScheme::Inferno
    } else if value == "Turbo"@ {
        ColorScheme::Turbo
    } else {
        ColorScheme::Viridis
    }
}

impl ColorScheme {
    /// Every palette, in the order offered to the user.
    pub fn all() -> (all: [ColorScheme; 3])
        ensures
            all@ == seq![ColorScheme::Viridis, ColorScheme::Inferno, ColorScheme::Turbo],
    {
        let all = [ColorScheme::Viridis, ColorScheme::Inferno, ColorScheme::Turbo];
        assert(all@ =~= seq![ColorScheme::Viridis, ColorScheme::Inferno, ColorScheme::Turbo]);
        all
    }

    /// The name of this palette.
    pub fn label(self) -> (label: &'static str)
        ensures
            label@ == spec_color_scheme_label(self),
    {
        match self {
            ColorScheme::Viridis => "Viridis",
            ColorScheme::Inferno => "Inferno",
            ColorScheme::Turbo => "Turbo",
        }
    }

    /// The palette a stored name stands for; an unknown name falls back to Viridis.
    pub fn from_persisted(value: &str) -> (scheme: Self)
        ensures
            scheme == spec_from_persisted(value@),
    {
        let v = chars_of(value);
        let inferno = chars_of("Inferno");
        let turbo = chars_of("Turbo");
        if eq_chars(v.as_slice(), inferno.as_slice()) {
            ColorScheme::Inferno
        } else if eq_chars(v.as_slice(), turbo.as_slice()) {
            ColorScheme::Turbo
        } else {
            ColorScheme::Viridis
        }
    }
}

/// A stored palette name read back gives the palette that was stored.
pub proof fn law_persisted_name_round_trip(scheme: ColorScheme)
    ensures
        spec_from_persisted(spec_color_scheme_label(scheme)) == scheme,
{
    reveal_strlit("Viridis");
    reveal_strlit("Inferno");
    reveal_strlit("Turbo");
    if scheme == ColorScheme::Viridis {
        assert("Viridis"@ != "Inferno"@ && "Viridis"@ != "Turbo"@) by {
            assert("Viridis"@[0] != "Inferno"@[0]);
            assert("Viridis"@[0] != "Turbo"@[0]);
        }
    }
    if scheme == ColorScheme::Turbo {
        assert("Turbo"@ != "Inferno"@) by {
            assert("Turbo"@[0] != "Inferno"@[0]);
        }
    }
}

} // verus!
