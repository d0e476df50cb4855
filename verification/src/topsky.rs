//! The TopSky plugin's configuration as a whole: its settings and colours, its
//! symbols, and its maps with what they define.
use vstd::prelude::*;

use crate::topsky_maps::{
    line_style_def_views, map_views, maps_text, override_views, parse_topsky_maps, LineStyleDef,
    MapDef, TopskyMapsError,
};
use crate::maps::OverrideSct;
use crate::text::lines_spec;
use crate::topsky_settings::{
    colour_def_views, pair_views, parse_topsky_settings, settings_lines, ColourDef, Settings,
    TopskySettingsError,
};
use crate::topsky_symbols::{def_views, parse_topsky_symbols, symbols_text, SymbolDef, SymbolsError};

verus! {

/// What the TopSky files of a profile define.
#[derive(Debug)]
pub struct Topsky {
    /// The symbols: those of the symbols file, then those of the maps file (of
    /// those with the same name the last counts).
    pub symbols: Vec<SymbolDef>,
    pub maps: Vec<MapDef>,
    /// The colours defined by name: those of the settings file, then those of the
    /// maps file.
    pub colours: Vec<ColourDef>,
    pub settings: Settings,
    pub line_styles: Vec<LineStyleDef>,
    pub overrides: Vec<OverrideSct>,
}

/// An error in one of the TopSky files.
#[derive(Debug, PartialEq, Eq)]
pub enum TopskyError {
    Settings(TopskySettingsError),
    Symbols(SymbolsError),
    Maps(TopskyMapsError),
}

/// The symbols that the symbols file gives, when there is one.
pub open spec fn symbols_file(symbols: Option<Seq<u8>>) -> Result<
    Seq<crate::topsky_symbols::SymbolDefV>,
    nat,
> {
    match symbols {
        Some(b) => symbols_text(crate::file_text(b)),
        None => Ok(seq![]),
    }
}

impl Topsky {
    /// The configuration that the contents of the settings file, the symbols file
    /// (where there is one) and the maps file give. The files are read in that order
    /// and the first invalid one is reported.
    pub fn from_files(settings: &[u8], symbols: Option<&[u8]>, maps: &[u8]) -> (res: Result<
        Topsky,
        TopskyError,
    >)
        ensures
            match settings_lines(lines_spec(crate::file_text(settings@))) {
                Err(i) => res == Err::<Topsky, TopskyError>(
                    TopskyError::Settings(TopskySettingsError::Parse { line: (i + 1) as usize }),
                ),
                Ok(st) => match symbols_file(
                    match symbols {
                        Some(b) => Some(b@),
                        None => None,
                    },
                ) {
                    Err(i) => res == Err::<Topsky, TopskyError>(
                        TopskyError::Symbols(SymbolsError::Parse { line: (i + 1) as usize }),
                    ),
                    Ok(defs) => match maps_text(crate::file_text(maps@)) {
                        Err(i) => res == Err::<Topsky, TopskyError>(
                            TopskyError::Maps(TopskyMapsError::Parse { line: (i + 1) as usize }),
                        ),
                        Ok(m) => res matches Ok(t) && def_views(t.symbols@) == defs + m.symbols
                            && colour_def_views(t.colours@) == st.colours + m.colours && pair_views(
                            t.settings.0@,
                        ) == st.settings && map_views(t.maps@) == m.maps && line_style_def_views(
                            t.line_styles@,
                        ) == m.line_styles && override_views(t.overrides@) == m.overrides,
                    },
                },
            },
    {
        let text = crate::read_to_string(settings);
        let (mut colours, settings) = match parse_topsky_settings(text.as_str()) {
            Ok(x) => x,
            Err(e) => {
                return Err(TopskyError::Settings(e));
            },
        };
        let mut defs = match symbols {
            Some(b) => match parse_topsky_symbols(b) {
                Ok(d) => d,
                Err(e) => {
                    return Err(TopskyError::Symbols(e));
                },
            },
            None => {
                let d: Vec<SymbolDef> = Vec::new();
                proof {
                    assert(def_views(d@) =~= Seq::<crate::topsky_symbols::SymbolDefV>::empty());
                }
                d
            },
        };
        let mut m = match parse_topsky_maps(maps) {
            Ok(m) => m,
            Err(e) => {
                return Err(TopskyError::Maps(e));
            },
        };
        let ghost d0 = defs@;
        let ghost s0 = m.symbols@;
        let ghost c0 = colours@;
        let ghost c1 = m.colours@;
        defs.append(&mut m.symbols);
        colours.append(&mut m.colours);
        proof {
            assert(def_views(d0 + s0) =~= def_views(d0) + def_views(s0));
            assert(colour_def_views(c0 + c1) =~= colour_def_views(c0) + colour_def_views(c1));
        }
        Ok(
            Topsky {
                symbols: defs,
                maps: m.maps,
                colours,
                settings,
                line_styles: m.line_styles,
                overrides: m.overrides,
            },
        )
    }
}

} // verus!
