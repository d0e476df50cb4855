//! An adaptation: what a radar display needs of a EuroScope profile, built from
//! the contents of its files.
use vstd::prelude::*;

use crate::airway::{airway_lines, line_recorded, parse_airway_txt, AirwayError};
use crate::airways::AirwayGraph;
use crate::colours::{colour_views, map_colours_from, sector_colours_from, track_colours_from, ui_colours_from, Colour, Colours};
use crate::ese::{ese_text, Ese, EseError};
use crate::line_styles::{line_styles_from_topsky, line_styles_of, named_dash_views, Dash};
use crate::locations::{locations_of, Locations};
use crate::maps::{folder_views, from_topsky, map_context, map_folders, Folder};
use crate::sct::{sct_text, Coordinate, Sct, SctError};
use crate::sct_items::{sct_items, SctItems};
use crate::sectors::{built_from_ese, sector_views, volume_views, Sectors, Volume};
use crate::settings::{coopans_spec, line_settings_from, maps_font_size, Settings};
use crate::squawks::SquawksJson;
use crate::symbology::{symbology_text, Symbology, SymbologyError};
use crate::symbols::{symbols_of, topsky_defs, Symbols};
use crate::text::lines_spec;
use crate::topsky::Topsky;
use crate::topsky_settings::{colour_def_views, pair_views, ColourDef};

verus! {

/// A controller position: its identifier, name and frequency, the prefix and
/// suffix of its callsign, and the points from which it sees.
#[derive(Debug)]
pub struct Position {
    pub id: String,
    pub name: String,
    pub frequency: String,
    pub prefix: String,
    pub suffix: String,
    pub visibility_points: Vec<Coordinate>,
}

pub struct PositionV {
    pub id: Seq<char>,
    pub name: Seq<char>,
    pub frequency: Seq<char>,
    pub prefix: Seq<char>,
    pub suffix: Seq<char>,
    pub visibility_points: Seq<Coordinate>,
}

impl View for Position {
    type V = PositionV;

    open spec fn view(&self) -> PositionV {
        PositionV {
            id: self.id@,
            name: self.name@,
            frequency: self.frequency@,
            prefix: self.prefix@,
            suffix: self.suffix@,
            visibility_points: self.visibility_points@,
        }
    }
}

pub open spec fn position_views(v: Seq<Position>) -> Seq<PositionV> {
    v.map_values(|p: Position| p@)
}

/// The position that a position of the extension file gives.
pub open spec fn position_of(p: crate::ese::PositionV) -> PositionV {
    PositionV {
        id: p.identifier,
        name: p.name,
        frequency: p.frequency,
        prefix: p.prefix,
        suffix: p.suffix,
        visibility_points: p.visibility_points,
    }
}

fn copy_coordinates(v: &Vec<Coordinate>) -> (r: Vec<Coordinate>)
    ensures
        r@ == v@,
{
    let mut r: Vec<Coordinate> = Vec::new();
    let mut i: usize = 0;
    while i < v.len()
        invariant
            i <= v@.len(),
            r@ == v@.take(i as int),
        decreases v@.len() - i,
    {
        r.push(v[i]);
        proof {
            assert(v@.take(i + 1) =~= v@.take(i as int).push(v@[i as int]));
        }
        i = i + 1;
    }
    proof {
        assert(v@.take(v@.len() as int) =~= v@);
    }
    r
}

impl Position {
    /// The positions of the extension file, in its order.
    pub fn from_ese_positions(positions: &Vec<crate::ese::Position>) -> (r: Vec<Position>)
        ensures
            position_views(r@) == crate::ese::position_views(positions@).map_values(
                |p: crate::ese::PositionV| position_of(p),
            ),
    {
        let ghost want = crate::ese::position_views(positions@).map_values(
            |p: crate::ese::PositionV| position_of(p),
        );
        let mut r: Vec<Position> = Vec::new();
        let mut i: usize = 0;
        while i < positions.len()
            invariant
                i <= positions@.len(),
                want == crate::ese::position_views(positions@).map_values(
                    |p: crate::ese::PositionV| position_of(p),
                ),
                position_views(r@) == want.take(i as int),
            decreases positions@.len() - i,
        {
            let p = &positions[i];
            let x = Position {
                id: p.identifier.clone(),
                name: p.name.clone(),
                frequency: p.frequency.clone(),
                prefix: p.prefix.clone(),
                suffix: p.suffix.clone(),
                visibility_points: copy_coordinates(&p.visibility_points),
            };
            let ghost before = position_views(r@);
            let ghost xv = x@;
            r.push(x);
            proof {
                assert(position_views(r@) =~= before.push(xv));
                assert(want.take(i + 1) =~= want.take(i as int).push(want[i as int]));
            }
            i = i + 1;
        }
        proof {
            assert(want.take(positions@.len() as int) =~= want);
        }
        r
    }
}

/// An error in one of the files an adaptation is built from.
#[derive(Debug, PartialEq, Eq)]
pub enum AdaptationError {
    Sct(SctError),
    Ese(EseError),
    Airways(AirwayError),
    Symbology(SymbologyError),
}

/// What a radar display needs of a EuroScope profile.
pub struct Adaptation {
    pub name: String,
    pub locations: Locations,
    pub positions: Vec<Position>,
    pub volumes: Vec<Volume>,
    pub sectors: Sectors,
    pub maps: Vec<Folder>,
    pub symbols: Symbols,
    pub colours: Colours,
    pub line_styles: Vec<(String, Option<Vec<Dash>>)>,
    pub settings: Settings,
    pub aircraft: Vec<crate::icao::Aircraft>,
    pub airlines: Vec<crate::icao_airlines::Airline>,
    pub airports: Vec<crate::icao::Airport>,
    /// The sector file's items for drawing.
    pub sct_items: SctItems,
}

/// The TopSky colours as name and colour pairs.
pub open spec fn topsky_colour_views(topsky: Option<Topsky>) -> Seq<(Seq<char>, Colour)> {
    match topsky {
        Some(t) => colour_def_views(t.colours@),
        None => seq![],
    }
}

/// The TopSky settings, if TopSky is configured.
pub open spec fn topsky_settings_views(topsky: Option<Topsky>) -> Option<Seq<(Seq<char>, Seq<char>)>> {
    match topsky {
        Some(t) => Some(pair_views(t.settings.0@)),
        None => None,
    }
}

fn colour_pairs(cs: &Vec<ColourDef>) -> (r: Vec<(String, Colour)>)
    ensures
        colour_views(r@) == colour_def_views(cs@),
{
    let mut r: Vec<(String, Colour)> = Vec::new();
    let mut i: usize = 0;
    while i < cs.len()
        invariant
            i <= cs@.len(),
            colour_views(r@) == colour_def_views(cs@).take(i as int),
        decreases cs@.len() - i,
    {
        let x = (cs[i].name.clone(), cs[i].colour);
        let ghost before = colour_views(r@);
        let ghost xv = (x.0@, x.1);
        r.push(x);
        proof {
            assert(colour_views(r@) =~= before.push(xv));
            assert(colour_def_views(cs@).take(i + 1) =~= colour_def_views(cs@).take(i as int).push(
                colour_def_views(cs@)[i as int],
            ));
        }
        i = i + 1;
    }
    proof {
        assert(colour_def_views(cs@).take(cs@.len() as int) =~= colour_def_views(cs@));
    }
    r
}

/// What an adaptation built from a sector file, an extension file, an airway file
/// and a Symbology.txt (as read) and TopSky's files and squawks.json holds.
pub open spec fn adaptation_from(
    a: Adaptation,
    sct: crate::sct::SctV,
    ese: crate::ese::EseV,
    airway_lines: Seq<crate::airway::AirwayLineV>,
    symbology: crate::symbology::SymbologyV,
    topsky: Option<Topsky>,
    squawks: Option<SquawksJson>,
) -> bool {
    &&& a.name@ == sct.info.name
    &&& a.locations@ == locations_of(sct, ese, a.locations.airways)
    &&& a.locations.airways.wf()
    &&& crate::airways::built_from(a.locations.airways, crate::airway::line_records(airway_lines))
    &&& forall|i: int| 0 <= i < airway_lines.len() ==> line_recorded(a.locations.airways, #[trigger] airway_lines[i])
    &&& position_views(a.positions@) == ese.positions.map_values(|p: crate::ese::PositionV| position_of(p))
    &&& built_from_ese(ese.sectors, volume_views(a.volumes@), sector_views(a.sectors.0@))
    &&& a.settings.maps.font_size == maps_font_size(topsky_settings_views(topsky))
    &&& a.settings.maps.line_styles@ == line_settings_from(symbology)
    &&& a.settings.coopans == coopans_spec(topsky_settings_views(topsky))
    &&& match squawks {
        Some(sq) => pair_views(a.settings.ssr.special_use_codes@)
            == crate::settings::all_squawk_entries(sq.squawks@),
        None => a.settings.ssr.special_use_codes@.len() == 0,
    }
    &&& a.colours.map == map_colours_from(symbology)
    &&& a.colours.sector == sector_colours_from(symbology)
    &&& a.colours.track == track_colours_from(topsky_colour_views(topsky), a.settings.coopans)
    &&& a.colours.ui == ui_colours_from(topsky_colour_views(topsky), a.settings.coopans)
    &&& a.colours.named() == sct.colours + topsky_colour_views(topsky)
    &&& a.sct_items@ == sct_items(sct, a.locations@, a.colours, a.settings.coopans)
    &&& match topsky {
        Some(t) => folder_views(a.maps@) == map_folders(
            map_context(a.settings, a.colours, a.locations@),
            t.overrides@,
            crate::topsky_maps::map_views(t.maps@),
        ),
        None => a.maps@.len() == 0,
    }
    &&& a.symbols@ == symbols_of(symbology, topsky_defs(topsky))
    &&& named_dash_views(a.line_styles@) == line_styles_of(
        match topsky {
            Some(t) => Some(crate::topsky_maps::line_style_def_views(t.line_styles@)),
            None => None,
        },
    )
}

impl Adaptation {
    /// The adaptation of a profile from the contents of its sector file, extension
    /// file, airway file, Symbology.txt, the ICAO aircraft, airline and airport
    /// files, and TopSky's configuration and squawks.json where the profile has them.
    /// The sector file, the extension file, the airway file and Symbology.txt are
    /// read in that order and the first invalid one is reported.
    pub fn from_contents(
        sct: &[u8],
        ese: &[u8],
        airways: &[u8],
        symbology: &[u8],
        topsky: Option<Topsky>,
        squawks: Option<&SquawksJson>,
        aircraft: &[u8],
        airlines: &[u8],
        airports: &[u8],
    ) -> (res: Result<Adaptation, AdaptationError>)
        ensures
            match sct_text(crate::file_text(sct@)) {
                Err(i) => res == Err::<Adaptation, AdaptationError>(
                    AdaptationError::Sct(SctError::Parse { line: (i + 1) as usize }),
                ),
                Ok(sv) => match ese_text(crate::file_text(ese@)) {
                    Err(i) => res == Err::<Adaptation, AdaptationError>(
                        AdaptationError::Ese(EseError::Parse { line: (i + 1) as usize }),
                    ),
                    Ok(ev) => match airway_lines(lines_spec(crate::file_text(airways@))) {
                        Err(i) => res == Err::<Adaptation, AdaptationError>(
                            AdaptationError::Airways(AirwayError::Parse { line: (i + 1) as usize }),
                        ),
                        Ok(ls) => match symbology_text(crate::file_text(symbology@)) {
                            Err(i) => res == Err::<Adaptation, AdaptationError>(
                                AdaptationError::Symbology(
                                    SymbologyError::Parse { line: (i + 1) as usize },
                                ),
                            ),
                            Ok(yv) => res matches Ok(a) && adaptation_from(
                                a,
                                sv,
                                ev,
                                ls,
                                yv,
                                topsky,
                                match squawks {
                                    Some(sq) => Some(*sq),
                                    None => None,
                                },
                            ) && crate::icao_aircraft::aircraft_views(a.aircraft@)
                                == crate::icao_aircraft::aircraft_list(
                                lines_spec(crate::file_text(aircraft@)),
                            ) && crate::icao_airlines::entry_views(a.airlines@)
                                == crate::icao_airlines::definitions(
                                lines_spec(crate::file_text(airlines@)),
                            ) && crate::icao_airports::entry_views(a.airports@)
                                == crate::icao_airports::definitions(
                                lines_spec(crate::file_text(airports@)),
                            ),
                        },
                    },
                },
            },
    {
        let sct = match Sct::parse(sct) {
            Ok(s) => s,
            Err(e) => {
                return Err(AdaptationError::Sct(e));
            },
        };
        let ese = match Ese::parse(ese) {
            Ok(e) => e,
            Err(e) => {
                return Err(AdaptationError::Ese(e));
            },
        };
        let airways = match parse_airway_txt(airways) {
            Ok(g) => g,
            Err(e) => {
                return Err(AdaptationError::Airways(e));
            },
        };
        let symbology = match Symbology::parse(symbology) {
            Ok(s) => s,
            Err(e) => {
                return Err(AdaptationError::Symbology(e));
            },
        };
        let name = sct.info.name.clone();
        let (volumes, sectors) = Sectors::from_ese(&ese);
        let positions = Position::from_ese_positions(&ese.positions);
        let settings = Settings::from_euroscope(
            &symbology,
            match &topsky {
                Some(t) => Some(t),
                None => None,
            },
            squawks,
        );
        let topsky_colours = match &topsky {
            Some(t) => colour_pairs(&t.colours),
            None => {
                let v: Vec<(String, Colour)> = Vec::new();
                proof {
                    assert(colour_views(v@) =~= Seq::<(Seq<char>, Colour)>::empty());
                }
                v
            },
        };
        let colours = Colours::from_euroscope(&symbology, &sct.colours, &topsky_colours, settings.coopans);
        let ghost ev = ese@;
        let locations = Locations::from_euroscope(sct.copy(), ese, airways);
        let sct_items = SctItems::from_sct(&sct, &locations, &colours, settings.coopans);
        let maps = match &topsky {
            Some(t) => from_topsky(t, &settings, &colours, &locations),
            None => Vec::new(),
        };
        let symbols = Symbols::from_euroscope(&symbology, &topsky);
        let line_styles = line_styles_from_topsky(&topsky);
        let a = Adaptation {
            name,
            locations,
            positions,
            volumes,
            sectors,
            maps,
            symbols,
            colours,
            line_styles,
            settings,
            aircraft: crate::icao_aircraft::parse_aircraft(aircraft),
            airlines: crate::icao_airlines::parse_airlines(airlines),
            airports: crate::icao_airports::parse_airports(airports),
            sct_items,
        };
        Ok(a)
    }
}

} // verus!
