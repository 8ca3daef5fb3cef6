//! The settings that are kept between runs.

use vstd::prelude::*;

verus! {

/// The colour themes that can be chosen.
#[derive(Debug, Clone, Copy, PartialEq, Eq, Structural)]
pub enum ColockodeTheme {
    Light,
    Dark,
    Dracula,
    Nord,
    SolarizedLight,
    SolarizedDark,
    GruvboxLight,
    GruvboxDark,
    CatppuccinLatte,
    CatppuccinFrappe,
    CatppuccinMacchiato,
    CatppuccinMocha,
    TokyoNight,
    TokyoNightStorm,
    TokyoNightLight,
    KanagawaWave,
    KanagawaDragon,
    KanagawaLotus,
    Moonfly,
    Nightfly,
    Oxocarbon,
    Ferra,
}

impl Default for ColockodeTheme {
    fn default() -> (theme: Self)
        ensures
            theme == ColockodeTheme::CatppuccinMacchiato,
    {
        ColockodeTheme::CatppuccinMacchiato
    }
}

/// The settings.
#[derive(Debug, Clone, Copy, PartialEq, Eq, Structural)]
pub struct Config {
    pub theme: ColockodeTheme,
}

impl Default for Config {
    fn default() -> (config: Self)
        ensures
            config == (Config { theme: ColockodeTheme::CatppuccinMacchiato }),
    {
        Config { theme: ColockodeTheme::CatppuccinMacchiato }
    }
}

} // verus!
