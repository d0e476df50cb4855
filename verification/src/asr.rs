//! EuroScope .asr files: display settings of a radar screen and the sector file
//! elements it shows.
//!
//! An .asr file is read line by line. Each line is `KEY:VALUE`; lines without a
//! colon and lines whose key is not listed below are passed over. The keys read:
//!
//! * `DisplayTypeName`, `DisplayTypeNeedRadarContent`, `DisplayTypeGeoReferenced`
//! * `SECTORFILE`, `SECTORTITLE`, `TAGFAMILY` (the value is kept as written)
//! * `SHOWC`, `SHOWSB`, `SHOWLEADER`, `TURNLEADER`, `DISABLEPANNING`,
//!   `DISABLEZOOMING` (`0` or `1`; any other value drops the line)
//! * `ABOVE`, `BELOW` (feet, `0` for no filter), `LEADER` (positive: miles, else
//!   minutes), `HISTORY_DOTS`, `SIMULATION_MODE` (`4` is ground, anything else radar)
//! * `DISPLAYROTATION`, `WINDOWAREA:lat:lon:lat:lon` (kept as the decimal text)
//! * `PLUGIN:plugin:key:value`
//! * map elements: `Runways:ICAO A-B:centerline|name`, `Airports:NAME:symbol|name`,
//!   `Fixes:...`, `VORs:NAME:symbol|name|frequency`, `NDBs:...`, `Sids:NAME`,
//!   `Stars:NAME`, `Low airways:NAME:line|name`, `High airways:...`,
//!   `Free Text:GROUP\NAME`, `Geo:NAME`, `Regions:NAME`, `ARTCC boundary:NAME`,
//!   `ARTCC high boundary:NAME`, `ARTCC low boundary:NAME`,
//!   `Ground network:NAME:exit|taxiway|terminal taxiway`.
//!
//! A listed key whose value does not have the listed form makes the file invalid.
use vstd::prelude::*;

use crate::lookup::{first_index, lemma_first_index, lemma_first_index_at};
use crate::text::{
    after_first, before_first, chars_are, i8_parse_spec, lines_spec, parse_decimal, parse_i8,
    split_chars, split_once, split_spec, string_from_chars, unsigned_parse_spec, views,
};

verus! {

#[derive(Clone, Copy, Debug, PartialEq, Eq, Structural)]
pub enum Leader {
    Miles(u8),
    Minutes(u8),
}

#[derive(Clone, Copy, Debug, PartialEq, Eq, Structural)]
pub enum SimulationMode {
    Radar,
    Ground,
}

#[derive(Clone, Copy, Debug, Eq, PartialEq, Structural)]
pub enum DisplayType {
    Radar,
    GroundRadar,
}

#[derive(Clone, Copy, Debug, PartialEq, Eq, Structural)]
pub enum AsrMapFixType {
    Name,
    Symbol,
}

#[derive(Clone, Copy, Debug, PartialEq, Eq, Structural)]
pub enum AsrMapNavaidType {
    Name,
    Symbol,
    Frequency,
}

#[derive(Clone, Copy, Debug, PartialEq, Eq, Structural)]
pub enum AsrMapRunwayType {
    Name,
    Centerline,
}

#[derive(Clone, Copy, Debug, PartialEq, Eq, Structural)]
pub enum AsrMapAirwayType {
    Name,
    Line,
}

#[derive(Clone, Copy, Debug, PartialEq, Eq, Structural)]
pub enum AsrMapGroundNetworkType {
    Exit,
    Taxiway,
    TerminalTaxiway,
}

/// One setting read from an .asr line.
#[derive(Debug)]
pub enum AsrData {
    Above(Option<u32>),
    Below(Option<u32>),
    DisablePanning(bool),
    DisableZooming(bool),
    /// the rotation in degrees, as written
    DisplayRotation(String),
    DisplayType(DisplayType),
    DisplayTypeGeoReferenced(bool),
    DisplayTypeNeedRadarContent(bool),
    HistoryDots(u8),
    Leader(Leader),
    SectorFile(String),
    SectorTitle(String),
    ShowLeader(bool),
    ShowC(bool),
    ShowStandby(bool),
    SimulationMode(SimulationMode),
    TagFamily(String),
    TurnLeader(bool),
    /// latitude and longitude of two corners, as written
    WindowArea((String, String, String, String)),
    PluginSetting((String, String, String)),
    Runway((String, String, String, AsrMapRunwayType)),
    Airport((String, AsrMapFixType)),
    Vor((String, AsrMapNavaidType)),
    Ndb((String, AsrMapNavaidType)),
    Fix((String, AsrMapFixType)),
    LowAirway((String, AsrMapAirwayType)),
    HighAirway((String, AsrMapAirwayType)),
    Sid(String),
    Star(String),
    FreeText((String, String)),
    Geo(String),
    GroundNetwork((String, AsrMapGroundNetworkType)),
    Region(String),
    ArtccBoundary(String),
    ArtccLowBoundary(String),
    ArtccHighBoundary(String),
}

/// [`AsrData`] with its text as character sequences.
pub enum AsrDataV {
    Above(Option<u32>),
    Below(Option<u32>),
    DisablePanning(bool),
    DisableZooming(bool),
    DisplayRotation(Seq<char>),
    DisplayType(DisplayType),
    DisplayTypeGeoReferenced(bool),
    DisplayTypeNeedRadarContent(bool),
    HistoryDots(u8),
    Leader(Leader),
    SectorFile(Seq<char>),
    SectorTitle(Seq<char>),
    ShowLeader(bool),
    ShowC(bool),
    ShowStandby(bool),
    SimulationMode(SimulationMode),
    TagFamily(Seq<char>),
    TurnLeader(bool),
    WindowArea((Seq<char>, Seq<char>, Seq<char>, Seq<char>)),
    PluginSetting((Seq<char>, Seq<char>, Seq<char>)),
    Runway((Seq<char>, Seq<char>, Seq<char>, AsrMapRunwayType)),
    Airport((Seq<char>, AsrMapFixType)),
    Vor((Seq<char>, AsrMapNavaidType)),
    Ndb((Seq<char>, AsrMapNavaidType)),
    Fix((Seq<char>, AsrMapFixType)),
    LowAirway((Seq<char>, AsrMapAirwayType)),
    HighAirway((Seq<char>, AsrMapAirwayType)),
    Sid(Seq<char>),
    Star(Seq<char>),
    FreeText((Seq<char>, Seq<char>)),
    Geo(Seq<char>),
    GroundNetwork((Seq<char>, AsrMapGroundNetworkType)),
    Region(Seq<char>),
    ArtccBoundary(Seq<char>),
    ArtccLowBoundary(Seq<char>),
    ArtccHighBoundary(Seq<char>),
}

impl View for AsrData {
    type V = AsrDataV;

    open spec fn view(&self) -> AsrDataV {
        match self {
            AsrData::Above(x) => AsrDataV::Above(*x),
            AsrData::Below(x) => AsrDataV::Below(*x),
            AsrData::DisablePanning(x) => AsrDataV::DisablePanning(*x),
            AsrData::DisableZooming(x) => AsrDataV::DisableZooming(*x),
            AsrData::DisplayRotation(x) => AsrDataV::DisplayRotation(x@),
            AsrData::DisplayType(x) => AsrDataV::DisplayType(*x),
            AsrData::DisplayTypeGeoReferenced(x) => AsrDataV::DisplayTypeGeoReferenced(*x),
            AsrData::DisplayTypeNeedRadarContent(x) => AsrDataV::DisplayTypeNeedRadarContent(*x),
            AsrData::HistoryDots(x) => AsrDataV::HistoryDots(*x),
            AsrData::Leader(x) => AsrDataV::Leader(*x),
            AsrData::SectorFile(x) => AsrDataV::SectorFile(x@),
            AsrData::SectorTitle(x) => AsrDataV::SectorTitle(x@),
            AsrData::ShowLeader(x) => AsrDataV::ShowLeader(*x),
            AsrData::ShowC(x) => AsrDataV::ShowC(*x),
            AsrData::ShowStandby(x) => AsrDataV::ShowStandby(*x),
            AsrData::SimulationMode(x) => AsrDataV::SimulationMode(*x),
            AsrData::TagFamily(x) => AsrDataV::TagFamily(x@),
            AsrData::TurnLeader(x) => AsrDataV::TurnLeader(*x),
            AsrData::WindowArea(x) => AsrDataV::WindowArea((x.0@, x.1@, x.2@, x.3@)),
            AsrData::PluginSetting(x) => AsrDataV::PluginSetting((x.0@, x.1@, x.2@)),
            AsrData::Runway(x) => AsrDataV::Runway((x.0@, x.1@, x.2@, x.3)),
            AsrData::Airport(x) => AsrDataV::Airport((x.0@, x.1)),
            AsrData::Vor(x) => AsrDataV::Vor((x.0@, x.1)),
            AsrData::Ndb(x) => AsrDataV::Ndb((x.0@, x.1)),
            AsrData::Fix(x) => AsrDataV::Fix((x.0@, x.1)),
            AsrData::LowAirway(x) => AsrDataV::LowAirway((x.0@, x.1)),
            AsrData::HighAirway(x) => AsrDataV::HighAirway((x.0@, x.1)),
            AsrData::Sid(x) => AsrDataV::Sid(x@),
            AsrData::Star(x) => AsrDataV::Star(x@),
            AsrData::FreeText(x) => AsrDataV::FreeText((x.0@, x.1@)),
            AsrData::Geo(x) => AsrDataV::Geo(x@),
            AsrData::GroundNetwork(x) => AsrDataV::GroundNetwork((x.0@, x.1)),
            AsrData::Region(x) => AsrDataV::Region(x@),
            AsrData::ArtccBoundary(x) => AsrDataV::ArtccBoundary(x@),
            AsrData::ArtccLowBoundary(x) => AsrDataV::ArtccLowBoundary(x@),
            AsrData::ArtccHighBoundary(x) => AsrDataV::ArtccHighBoundary(x@),
        }
    }
}

// ---------------------------------------------------------------------------
// One line

/// `0` is false, `1` is true; anything else is no boolean.
pub open spec fn to_bool_spec(s: Seq<char>) -> Option<bool> {
    if s == "0"@ {
        Some(false)
    } else if s == "1"@ {
        Some(true)
    } else {
        None
    }
}

/// Reads an .asr boolean (see [`to_bool_spec`]).
pub fn to_bool(data: &[char]) -> (r: Option<bool>)
    ensures
        r == to_bool_spec(data@),
{
    if chars_are(data, "0") {
        Some(false)
    } else if chars_are(data, "1") {
        Some(true)
    } else {
        None
    }
}

/// A boolean setting: the line is dropped when the value is no boolean.
pub open spec fn bool_setting(v: Seq<char>, mk: spec_fn(bool) -> AsrDataV) -> Result<
    Option<AsrDataV>,
    (),
> {
    match to_bool_spec(v) {
        Some(b) => Ok(Some(mk(b))),
        None => Ok(None),
    }
}

/// An altitude filter: a decimal `u32`, where `0` means no filter.
pub open spec fn level_filter(v: Seq<char>) -> Result<Option<u32>, ()> {
    match unsigned_parse_spec(v, 10, 0xffff_ffff) {
        Some(n) => if n == 0 {
            Ok(None)
        } else {
            Ok(Some(n as u32))
        },
        None => Err(()),
    }
}

/// The leader line: positive values are miles, others minutes.
pub open spec fn leader_spec(v: Seq<char>) -> Result<Leader, ()> {
    match i8_parse_spec(v) {
        Some(n) => if n > 0 {
            Ok(Leader::Miles(n as u8))
        } else {
            Ok(Leader::Minutes((-n) as u8))
        },
        None => Err(()),
    }
}

/// `ICAO A-B`: the airport and the two runway designators.
pub open spec fn runway_name_spec(name: Seq<char>) -> Option<(Seq<char>, Seq<char>, Seq<char>)> {
    match after_first(name, ' ') {
        Some(ends) => match after_first(ends, '-') {
            Some(b) => Some((before_first(name, ' '), before_first(ends, '-'), b)),
            None => None,
        },
        None => None,
    }
}

pub open spec fn fix_type_spec(t: Seq<char>) -> Option<AsrMapFixType> {
    if t == "symbol"@ {
        Some(AsrMapFixType::Symbol)
    } else if t == "name"@ {
        Some(AsrMapFixType::Name)
    } else {
        None
    }
}

pub open spec fn navaid_type_spec(t: Seq<char>) -> Option<AsrMapNavaidType> {
    if t == "symbol"@ {
        Some(AsrMapNavaidType::Symbol)
    } else if t == "name"@ {
        Some(AsrMapNavaidType::Name)
    } else if t == "frequency"@ {
        Some(AsrMapNavaidType::Frequency)
    } else {
        None
    }
}

pub open spec fn airway_type_spec(t: Seq<char>) -> Option<AsrMapAirwayType> {
    if t == "line"@ {
        Some(AsrMapAirwayType::Line)
    } else if t == "name"@ {
        Some(AsrMapAirwayType::Name)
    } else {
        None
    }
}

pub open spec fn ground_network_type_spec(t: Seq<char>) -> Option<AsrMapGroundNetworkType> {
    if t == "exit"@ {
        Some(AsrMapGroundNetworkType::Exit)
    } else if t == "taxiway"@ {
        Some(AsrMapGroundNetworkType::Taxiway)
    } else if t == "terminal taxiway"@ {
        Some(AsrMapGroundNetworkType::TerminalTaxiway)
    } else {
        None
    }
}

/// `NAME:TYPE` for a map element, with the type read by `ty`.
pub open spec fn named_element<T>(v: Seq<char>, ty: spec_fn(Seq<char>) -> Option<T>) -> Option<
    (Seq<char>, T),
> {
    match after_first(v, ':') {
        Some(t) => match ty(t) {
            Some(x) => Some((before_first(v, ':'), x)),
            None => None,
        },
        None => None,
    }
}

pub open spec fn fix_element_spec(v: Seq<char>) -> Option<(Seq<char>, AsrMapFixType)> {
    named_element(v, |t: Seq<char>| fix_type_spec(t))
}

pub open spec fn navaid_element_spec(v: Seq<char>) -> Option<(Seq<char>, AsrMapNavaidType)> {
    named_element(v, |t: Seq<char>| navaid_type_spec(t))
}

pub open spec fn airway_element_spec(v: Seq<char>) -> Option<(Seq<char>, AsrMapAirwayType)> {
    named_element(v, |t: Seq<char>| airway_type_spec(t))
}

pub open spec fn ground_network_element_spec(v: Seq<char>) -> Option<
    (Seq<char>, AsrMapGroundNetworkType),
> {
    named_element(v, |t: Seq<char>| ground_network_type_spec(t))
}

/// What one line of an .asr file holds: `Err` for a listed key whose value has
/// not the listed form, `Ok(None)` for a line that holds no setting.
pub open spec fn asr_line(l: Seq<char>) -> Result<Option<AsrDataV>, ()> {
    let k = before_first(l, ':');
    match after_first(l, ':') {
        None => Ok(None),
        Some(v) => if k == "DisplayTypeName"@ {
            Ok(
                Some(
                    AsrDataV::DisplayType(
                        if v == "Ground Radar display"@ {
                            DisplayType::GroundRadar
                        } else {
                            DisplayType::Radar
                        },
                    ),
                ),
            )
        } else if k == "DisplayTypeNeedRadarContent"@ {
            bool_setting(v, |b: bool| AsrDataV::DisplayTypeNeedRadarContent(b))
        } else if k == "DisplayTypeGeoReferenced"@ {
            bool_setting(v, |b: bool| AsrDataV::DisplayTypeGeoReferenced(b))
        } else if k == "SECTORFILE"@ {
            Ok(Some(AsrDataV::SectorFile(v)))
        } else if k == "SECTORTITLE"@ {
            Ok(Some(AsrDataV::SectorTitle(v)))
        } else if k == "SHOWC"@ {
            bool_setting(v, |b: bool| AsrDataV::ShowC(b))
        } else if k == "SHOWSB"@ {
            bool_setting(v, |b: bool| AsrDataV::ShowStandby(b))
        } else if k == "ABOVE"@ {
            match level_filter(v) {
                Ok(f) => Ok(Some(AsrDataV::Above(f))),
                Err(()) => Err(()),
            }
        } else if k == "BELOW"@ {
            match level_filter(v) {
                Ok(f) => Ok(Some(AsrDataV::Below(f))),
                Err(()) => Err(()),
            }
        } else if k == "LEADER"@ {
            match leader_spec(v) {
                Ok(x) => Ok(Some(AsrDataV::Leader(x))),
                Err(()) => Err(()),
            }
        } else if k == "SHOWLEADER"@ {
            bool_setting(v, |b: bool| AsrDataV::ShowLeader(b))
        } else if k == "TURNLEADER"@ {
            bool_setting(v, |b: bool| AsrDataV::TurnLeader(b))
        } else if k == "HISTORY_DOTS"@ {
            match unsigned_parse_spec(v, 10, 255) {
                Some(n) => Ok(Some(AsrDataV::HistoryDots(n as u8))),
                None => Err(()),
            }
        } else if k == "SIMULATION_MODE"@ {
            Ok(
                Some(
                    AsrDataV::SimulationMode(
                        if v == "4"@ {
                            SimulationMode::Ground
                        } else {
                            SimulationMode::Radar
                        },
                    ),
                ),
            )
        } else if k == "DISABLEPANNING"@ {
            bool_setting(v, |b: bool| AsrDataV::DisablePanning(b))
        } else if k == "DISABLEZOOMING"@ {
            bool_setting(v, |b: bool| AsrDataV::DisableZooming(b))
        } else if k == "DISPLAYROTATION"@ {
            Ok(Some(AsrDataV::DisplayRotation(v)))
        } else if k == "TAGFAMILY"@ {
            Ok(Some(AsrDataV::TagFamily(v)))
        } else if k == "WINDOWAREA"@ {
            let p = split_spec(v, ':');
            if p.len() == 4 {
                Ok(Some(AsrDataV::WindowArea((p[0], p[1], p[2], p[3]))))
            } else {
                Err(())
            }
        } else if k == "PLUGIN"@ {
            match after_first(v, ':') {
                Some(r) => match after_first(r, ':') {
                    Some(val) => Ok(
                        Some(
                            AsrDataV::PluginSetting(
                                (before_first(v, ':'), before_first(r, ':'), val),
                            ),
                        ),
                    ),
                    None => Err(()),
                },
                None => Err(()),
            }
        } else if k == "Runways"@ {
            match (runway_name_spec(before_first(v, ':')), after_first(v, ':')) {
                (Some((apt, a, b)), Some(t)) => if t == "centerline"@ {
                    Ok(Some(AsrDataV::Runway((apt, a, b, AsrMapRunwayType::Centerline))))
                } else if t == "name"@ {
                    Ok(Some(AsrDataV::Runway((apt, a, b, AsrMapRunwayType::Name))))
                } else {
                    // extended centre lines are not shown
                    Ok(None)
                },
                _ => Err(()),
            }
        } else if k == "Airports"@ {
            match fix_element_spec(v) {
                Some(e) => Ok(Some(AsrDataV::Airport(e))),
                None => Err(()),
            }
        } else if k == "Fixes"@ {
            match fix_element_spec(v) {
                Some(e) => Ok(Some(AsrDataV::Fix(e))),
                None => Err(()),
            }
        } else if k == "NDBs"@ {
            match navaid_element_spec(v) {
                Some(e) => Ok(Some(AsrDataV::Ndb(e))),
                None => Err(()),
            }
        } else if k == "VORs"@ {
            match navaid_element_spec(v) {
                Some(e) => Ok(Some(AsrDataV::Vor(e))),
                None => Err(()),
            }
        } else if k == "Sids"@ {
            Ok(Some(AsrDataV::Sid(before_first(v, ':'))))
        } else if k == "Stars"@ {
            Ok(Some(AsrDataV::Star(before_first(v, ':'))))
        } else if k == "Low airways"@ {
            match airway_element_spec(v) {
                Some(e) => Ok(Some(AsrDataV::LowAirway(e))),
                None => Err(()),
            }
        } else if k == "High airways"@ {
            match airway_element_spec(v) {
                Some(e) => Ok(Some(AsrDataV::HighAirway(e))),
                None => Err(()),
            }
        } else if k == "Free Text"@ {
            let n = before_first(v, ':');
            match after_first(n, '\\') {
                Some(text) => Ok(Some(AsrDataV::FreeText((before_first(n, '\\'), text)))),
                None => Err(()),
            }
        } else if k == "Geo"@ {
            Ok(Some(AsrDataV::Geo(before_first(v, ':'))))
        } else if k == "Regions"@ {
            Ok(Some(AsrDataV::Region(before_first(v, ':'))))
        } else if k == "ARTCC boundary"@ {
            Ok(Some(AsrDataV::ArtccBoundary(before_first(v, ':'))))
        } else if k == "ARTCC high boundary"@ {
            Ok(Some(AsrDataV::ArtccHighBoundary(before_first(v, ':'))))
        } else if k == "ARTCC low boundary"@ {
            Ok(Some(AsrDataV::ArtccLowBoundary(before_first(v, ':'))))
        } else if k == "Ground network"@ {
            match ground_network_element_spec(v) {
                Some(e) => Ok(Some(AsrDataV::GroundNetwork(e))),
                None => Err(()),
            }
        } else {
            Ok(None)
        },
    }
}

/// Whether an exec reading of a line agrees with [`asr_line`].
pub open spec fn line_read_as(r: Result<Option<AsrData>, ()>, s: Result<Option<AsrDataV>, ()>) -> bool {
    match s {
        Err(()) => r is Err,
        Ok(None) => r matches Ok(None),
        Ok(Some(d)) => r matches Ok(Some(x)) && x@ == d,
    }
}

fn level_filter_exec(v: &[char]) -> (r: Result<Option<u32>, ()>)
    ensures
        r == level_filter(v@),
{
    match parse_decimal(v, 0xffff_ffff) {
        Some(n) => if n == 0 {
            Ok(None)
        } else {
            Ok(Some(n as u32))
        },
        None => Err(()),
    }
}

fn leader_exec(v: &[char]) -> (r: Result<Leader, ()>)
    ensures
        r == leader_spec(v@),
{
    match parse_i8(v) {
        Some(n) => if n > 0 {
            Ok(Leader::Miles(n as u8))
        } else {
            let m: u8 = if n == -128 { 128 } else { (-n) as u8 };
            Ok(Leader::Minutes(m))
        },
        None => Err(()),
    }
}

fn runway_name_exec(name: &[char]) -> (r: Option<(String, String, String)>)
    ensures
        match runway_name_spec(name@) {
            Some((a, b, c)) => r matches Some(x) && x.0@ == a && x.1@ == b && x.2@ == c,
            None => r is None,
        },
{
    let (apt, ends) = split_once(name, ' ');
    match ends {
        Some(ends) => {
            let (a, b) = split_once(ends.as_slice(), '-');
            match b {
                Some(b) => Some(
                    (
                        string_from_chars(apt.as_slice()),
                        string_from_chars(a.as_slice()),
                        string_from_chars(b.as_slice()),
                    ),
                ),
                None => None,
            }
        },
        None => None,
    }
}

fn fix_element(v: &[char]) -> (r: Option<(String, AsrMapFixType)>)
    ensures
        match fix_element_spec(v@) {
            Some((n, t)) => r matches Some(x) && x.0@ == n && x.1 == t,
            None => r is None,
        },
{
    let (name, t) = split_once(v, ':');
    match t {
        Some(t) => {
            let ty = if chars_are(t.as_slice(), "symbol") {
                Some(AsrMapFixType::Symbol)
            } else if chars_are(t.as_slice(), "name") {
                Some(AsrMapFixType::Name)
            } else {
                None
            };
            match ty {
                Some(ty) => Some((string_from_chars(name.as_slice()), ty)),
                None => None,
            }
        },
        None => None,
    }
}

fn navaid_element(v: &[char]) -> (r: Option<(String, AsrMapNavaidType)>)
    ensures
        match navaid_element_spec(v@) {
            Some((n, t)) => r matches Some(x) && x.0@ == n && x.1 == t,
            None => r is None,
        },
{
    let (name, t) = split_once(v, ':');
    match t {
        Some(t) => {
            let ty = if chars_are(t.as_slice(), "symbol") {
                Some(AsrMapNavaidType::Symbol)
            } else if chars_are(t.as_slice(), "name") {
                Some(AsrMapNavaidType::Name)
            } else if chars_are(t.as_slice(), "frequency") {
                Some(AsrMapNavaidType::Frequency)
            } else {
                None
            };
            match ty {
                Some(ty) => Some((string_from_chars(name.as_slice()), ty)),
                None => None,
            }
        },
        None => None,
    }
}

fn airway_element(v: &[char]) -> (r: Option<(String, AsrMapAirwayType)>)
    ensures
        match airway_element_spec(v@) {
            Some((n, t)) => r matches Some(x) && x.0@ == n && x.1 == t,
            None => r is None,
        },
{
    let (name, t) = split_once(v, ':');
    match t {
        Some(t) => {
            let ty = if chars_are(t.as_slice(), "line") {
                Some(AsrMapAirwayType::Line)
            } else if chars_are(t.as_slice(), "name") {
                Some(AsrMapAirwayType::Name)
            } else {
                None
            };
            match ty {
                Some(ty) => Some((string_from_chars(name.as_slice()), ty)),
                None => None,
            }
        },
        None => None,
    }
}

fn ground_network_element(v: &[char]) -> (r: Option<(String, AsrMapGroundNetworkType)>)
    ensures
        match ground_network_element_spec(v@) {
            Some((n, t)) => r matches Some(x) && x.0@ == n && x.1 == t,
            None => r is None,
        },
{
    let (name, t) = split_once(v, ':');
    match t {
        Some(t) => {
            let ty = if chars_are(t.as_slice(), "exit") {
                Some(AsrMapGroundNetworkType::Exit)
            } else if chars_are(t.as_slice(), "taxiway") {
                Some(AsrMapGroundNetworkType::Taxiway)
            } else if chars_are(t.as_slice(), "terminal taxiway") {
                Some(AsrMapGroundNetworkType::TerminalTaxiway)
            } else {
                None
            };
            match ty {
                Some(ty) => Some((string_from_chars(name.as_slice()), ty)),
                None => None,
            }
        },
        None => None,
    }
}

/// The text of `v` up to its first colon.
fn name_before_colon(v: &[char]) -> (r: String)
    ensures
        r@ == before_first(v@, ':'),
{
    let (name, _) = split_once(v, ':');
    string_from_chars(name.as_slice())
}

/// Reads one line of an .asr file (see [`asr_line`]).
#[verifier::rlimit(60)]
pub fn parse_setting(l: &[char]) -> (r: Result<Option<AsrData>, ()>)
    ensures
        line_read_as(r, asr_line(l@)),
{
    let (k, v) = split_once(l, ':');
    let v = match v {
        None => {
            return Ok(None);
        },
        Some(v) => v,
    };
    let k = k.as_slice();
    let v = v.as_slice();
    if chars_are(k, "DisplayTypeName") {
        let t = if chars_are(v, "Ground Radar display") {
            DisplayType::GroundRadar
        } else {
            DisplayType::Radar
        };
        Ok(Some(AsrData::DisplayType(t)))
    } else if chars_are(k, "DisplayTypeNeedRadarContent") {
        match to_bool(v) {
            Some(b) => Ok(Some(AsrData::DisplayTypeNeedRadarContent(b))),
            None => Ok(None),
        }
    } else if chars_are(k, "DisplayTypeGeoReferenced") {
        match to_bool(v) {
            Some(b) => Ok(Some(AsrData::DisplayTypeGeoReferenced(b))),
            None => Ok(None),
        }
    } else if chars_are(k, "SECTORFILE") {
        Ok(Some(AsrData::SectorFile(string_from_chars(v))))
    } else if chars_are(k, "SECTORTITLE") {
        Ok(Some(AsrData::SectorTitle(string_from_chars(v))))
    } else if chars_are(k, "SHOWC") {
        match to_bool(v) {
            Some(b) => Ok(Some(AsrData::ShowC(b))),
            None => Ok(None),
        }
    } else if chars_are(k, "SHOWSB") {
        match to_bool(v) {
            Some(b) => Ok(Some(AsrData::ShowStandby(b))),
            None => Ok(None),
        }
    } else if chars_are(k, "ABOVE") {
        match level_filter_exec(v) {
            Ok(f) => Ok(Some(AsrData::Above(f))),
            Err(()) => Err(()),
        }
    } else if chars_are(k, "BELOW") {
        match level_filter_exec(v) {
            Ok(f) => Ok(Some(AsrData::Below(f))),
            Err(()) => Err(()),
        }
    } else if chars_are(k, "LEADER") {
        match leader_exec(v) {
            Ok(x) => Ok(Some(AsrData::Leader(x))),
            Err(()) => Err(()),
        }
    } else if chars_are(k, "SHOWLEADER") {
        match to_bool(v) {
            Some(b) => Ok(Some(AsrData::ShowLeader(b))),
            None => Ok(None),
        }
    } else if chars_are(k, "TURNLEADER") {
        match to_bool(v) {
            Some(b) => Ok(Some(AsrData::TurnLeader(b))),
            None => Ok(None),
        }
    } else if chars_are(k, "HISTORY_DOTS") {
        match parse_decimal(v, 255) {
            Some(n) => Ok(Some(AsrData::HistoryDots(n as u8))),
            None => Err(()),
        }
    } else if chars_are(k, "SIMULATION_MODE") {
        let m = if chars_are(v, "4") {
            SimulationMode::Ground
        } else {
            SimulationMode::Radar
        };
        Ok(Some(AsrData::SimulationMode(m)))
    } else if chars_are(k, "DISABLEPANNING") {
        match to_bool(v) {
            Some(b) => Ok(Some(AsrData::DisablePanning(b))),
            None => Ok(None),
        }
    } else if chars_are(k, "DISABLEZOOMING") {
        match to_bool(v) {
            Some(b) => Ok(Some(AsrData::DisableZooming(b))),
            None => Ok(None),
        }
    } else if chars_are(k, "DISPLAYROTATION") {
        Ok(Some(AsrData::DisplayRotation(string_from_chars(v))))
    } else if chars_are(k, "TAGFAMILY") {
        Ok(Some(AsrData::TagFamily(string_from_chars(v))))
    } else if chars_are(k, "WINDOWAREA") {
        let p = split_chars(v, ':');
        if p.len() == 4 {
            proof {
                assert(views(p@)[0] == p@[0]@);
                assert(views(p@)[1] == p@[1]@);
                assert(views(p@)[2] == p@[2]@);
                assert(views(p@)[3] == p@[3]@);
            }
            Ok(
                Some(
                    AsrData::WindowArea(
                        (
                            string_from_chars(p[0].as_slice()),
                            string_from_chars(p[1].as_slice()),
                            string_from_chars(p[2].as_slice()),
                            string_from_chars(p[3].as_slice()),
                        ),
                    ),
                ),
            )
        } else {
            Err(())
        }
    } else if chars_are(k, "PLUGIN") {
        let (plugin, r) = split_once(v, ':');
        match r {
            Some(r) => {
                let (key, val) = split_once(r.as_slice(), ':');
                match val {
                    Some(val) => Ok(
                        Some(
                            AsrData::PluginSetting(
                                (
                                    string_from_chars(plugin.as_slice()),
                                    string_from_chars(key.as_slice()),
                                    string_from_chars(val.as_slice()),
                                ),
                            ),
                        ),
                    ),
                    None => Err(()),
                }
            },
            None => Err(()),
        }
    } else if chars_are(k, "Runways") {
        let (name, t) = split_once(v, ':');
        match (runway_name_exec(name.as_slice()), t) {
            (Some((apt, a, b)), Some(t)) => {
                if chars_are(t.as_slice(), "centerline") {
                    Ok(Some(AsrData::Runway((apt, a, b, AsrMapRunwayType::Centerline))))
                } else if chars_are(t.as_slice(), "name") {
                    Ok(Some(AsrData::Runway((apt, a, b, AsrMapRunwayType::Name))))
                } else {
                    Ok(None)
                }
            },
            _ => Err(()),
        }
    } else if chars_are(k, "Airports") {
        match fix_element(v) {
            Some(e) => Ok(Some(AsrData::Airport(e))),
            None => Err(()),
        }
    } else if chars_are(k, "Fixes") {
        match fix_element(v) {
            Some(e) => Ok(Some(AsrData::Fix(e))),
            None => Err(()),
        }
    } else if chars_are(k, "NDBs") {
        match navaid_element(v) {
            Some(e) => Ok(Some(AsrData::Ndb(e))),
            None => Err(()),
        }
    } else if chars_are(k, "VORs") {
        match navaid_element(v) {
            Some(e) => Ok(Some(AsrData::Vor(e))),
            None => Err(()),
        }
    } else if chars_are(k, "Sids") {
        Ok(Some(AsrData::Sid(name_before_colon(v))))
    } else if chars_are(k, "Stars") {
        Ok(Some(AsrData::Star(name_before_colon(v))))
    } else if chars_are(k, "Low airways") {
        match airway_element(v) {
            Some(e) => Ok(Some(AsrData::LowAirway(e))),
            None => Err(()),
        }
    } else if chars_are(k, "High airways") {
        match airway_element(v) {
            Some(e) => Ok(Some(AsrData::HighAirway(e))),
            None => Err(()),
        }
    } else if chars_are(k, "Free Text") {
        let (n, _) = split_once(v, ':');
        let (group, text) = split_once(n.as_slice(), '\\');
        match text {
            Some(text) => Ok(
                Some(
                    AsrData::FreeText(
                        (string_from_chars(group.as_slice()), string_from_chars(text.as_slice())),
                    ),
                ),
            ),
            None => Err(()),
        }
    } else if chars_are(k, "Geo") {
        Ok(Some(AsrData::Geo(name_before_colon(v))))
    } else if chars_are(k, "Regions") {
        Ok(Some(AsrData::Region(name_before_colon(v))))
    } else if chars_are(k, "ARTCC boundary") {
        Ok(Some(AsrData::ArtccBoundary(name_before_colon(v))))
    } else if chars_are(k, "ARTCC high boundary") {
        Ok(Some(AsrData::ArtccHighBoundary(name_before_colon(v))))
    } else if chars_are(k, "ARTCC low boundary") {
        Ok(Some(AsrData::ArtccLowBoundary(name_before_colon(v))))
    } else if chars_are(k, "Ground network") {
        match ground_network_element(v) {
            Some(e) => Ok(Some(AsrData::GroundNetwork(e))),
            None => Err(()),
        }
    } else {
        Ok(None)
    }
}

// ---------------------------------------------------------------------------
// The whole file

/// The sector file elements that an .asr file shows, in file order.
#[derive(Default, Debug)]
pub struct AsrMap {
    pub runways: Vec<(String, String, String, AsrMapRunwayType)>,
    pub airports: Vec<(String, AsrMapFixType)>,
    pub vors: Vec<(String, AsrMapNavaidType)>,
    pub ndbs: Vec<(String, AsrMapNavaidType)>,
    pub fixes: Vec<(String, AsrMapFixType)>,
    pub low_airways: Vec<(String, AsrMapAirwayType)>,
    pub high_airways: Vec<(String, AsrMapAirwayType)>,
    pub sids: Vec<String>,
    pub stars: Vec<String>,
    pub free_text: Vec<(String, String)>,
    pub geo: Vec<String>,
    pub ground_network: Vec<(String, AsrMapGroundNetworkType)>,
    pub regions: Vec<String>,
    pub artcc_boundary: Vec<String>,
    pub artcc_low_boundary: Vec<String>,
    pub artcc_high_boundary: Vec<String>,
}

/// [`AsrMap`] with its text as character sequences.
#[verifier::ext_equal]
pub struct AsrMapV {
    pub runways: Seq<(Seq<char>, Seq<char>, Seq<char>, AsrMapRunwayType)>,
    pub airports: Seq<(Seq<char>, AsrMapFixType)>,
    pub vors: Seq<(Seq<char>, AsrMapNavaidType)>,
    pub ndbs: Seq<(Seq<char>, AsrMapNavaidType)>,
    pub fixes: Seq<(Seq<char>, AsrMapFixType)>,
    pub low_airways: Seq<(Seq<char>, AsrMapAirwayType)>,
    pub high_airways: Seq<(Seq<char>, AsrMapAirwayType)>,
    pub sids: Seq<Seq<char>>,
    pub stars: Seq<Seq<char>>,
    pub free_text: Seq<(Seq<char>, Seq<char>)>,
    pub geo: Seq<Seq<char>>,
    pub ground_network: Seq<(Seq<char>, AsrMapGroundNetworkType)>,
    pub regions: Seq<Seq<char>>,
    pub artcc_boundary: Seq<Seq<char>>,
    pub artcc_low_boundary: Seq<Seq<char>>,
    pub artcc_high_boundary: Seq<Seq<char>>,
}

pub open spec fn strings_view(v: Seq<String>) -> Seq<Seq<char>> {
    v.map_values(|x: String| x@)
}

pub open spec fn named_view<T>(v: Seq<(String, T)>) -> Seq<(Seq<char>, T)> {
    v.map_values(|x: (String, T)| (x.0@, x.1))
}

impl View for AsrMap {
    type V = AsrMapV;

    open spec fn view(&self) -> AsrMapV {
        AsrMapV {
            runways: self.runways@.map_values(
                |x: (String, String, String, AsrMapRunwayType)| (x.0@, x.1@, x.2@, x.3),
            ),
            airports: named_view(self.airports@),
            vors: named_view(self.vors@),
            ndbs: named_view(self.ndbs@),
            fixes: named_view(self.fixes@),
            low_airways: named_view(self.low_airways@),
            high_airways: named_view(self.high_airways@),
            sids: strings_view(self.sids@),
            stars: strings_view(self.stars@),
            free_text: self.free_text@.map_values(|x: (String, String)| (x.0@, x.1@)),
            geo: strings_view(self.geo@),
            ground_network: named_view(self.ground_network@),
            regions: strings_view(self.regions@),
            artcc_boundary: strings_view(self.artcc_boundary@),
            artcc_low_boundary: strings_view(self.artcc_low_boundary@),
            artcc_high_boundary: strings_view(self.artcc_high_boundary@),
        }
    }
}

/// An empty element list.
pub open spec fn empty_map() -> AsrMapV {
    AsrMapV {
        runways: seq![],
        airports: seq![],
        vors: seq![],
        ndbs: seq![],
        fixes: seq![],
        low_airways: seq![],
        high_airways: seq![],
        sids: seq![],
        stars: seq![],
        free_text: seq![],
        geo: seq![],
        ground_network: seq![],
        regions: seq![],
        artcc_boundary: seq![],
        artcc_low_boundary: seq![],
        artcc_high_boundary: seq![],
    }
}

/// The map elements after one more setting: an element setting is appended to
/// its list; every other setting leaves the lists as they are.
pub open spec fn map_step(m: AsrMapV, d: AsrDataV) -> AsrMapV {
    match d {
        AsrDataV::Runway(x) => AsrMapV { runways: m.runways.push(x), ..m },
        AsrDataV::Airport(x) => AsrMapV { airports: m.airports.push(x), ..m },
        AsrDataV::Vor(x) => AsrMapV { vors: m.vors.push(x), ..m },
        AsrDataV::Ndb(x) => AsrMapV { ndbs: m.ndbs.push(x), ..m },
        AsrDataV::Fix(x) => AsrMapV { fixes: m.fixes.push(x), ..m },
        AsrDataV::LowAirway(x) => AsrMapV { low_airways: m.low_airways.push(x), ..m },
        AsrDataV::HighAirway(x) => AsrMapV { high_airways: m.high_airways.push(x), ..m },
        AsrDataV::Sid(x) => AsrMapV { sids: m.sids.push(x), ..m },
        AsrDataV::Star(x) => AsrMapV { stars: m.stars.push(x), ..m },
        AsrDataV::FreeText(x) => AsrMapV { free_text: m.free_text.push(x), ..m },
        AsrDataV::Geo(x) => AsrMapV { geo: m.geo.push(x), ..m },
        AsrDataV::GroundNetwork(x) => AsrMapV { ground_network: m.ground_network.push(x), ..m },
        AsrDataV::Region(x) => AsrMapV { regions: m.regions.push(x), ..m },
        AsrDataV::ArtccBoundary(x) => AsrMapV { artcc_boundary: m.artcc_boundary.push(x), ..m },
        AsrDataV::ArtccLowBoundary(x) => AsrMapV {
            artcc_low_boundary: m.artcc_low_boundary.push(x),
            ..m
        },
        AsrDataV::ArtccHighBoundary(x) => AsrMapV {
            artcc_high_boundary: m.artcc_high_boundary.push(x),
            ..m
        },
        _ => m,
    }
}

/// Whether plugin setting `j` of `s` is for plugin `p` and key `k`.
pub open spec fn setting_for(s: Seq<(Seq<char>, Seq<char>, Seq<char>)>, p: Seq<char>, k: Seq<char>) -> spec_fn(int) -> bool {
    |j: int| s[j].0 == p && s[j].1 == k
}

/// Plugin settings with setting `x` put in: its value replaces that of the entry for
/// the same plugin and key, else it is appended. So the last value of a plugin and
/// key counts, at the place where the pair first occurred.
pub open spec fn put_setting(
    s: Seq<(Seq<char>, Seq<char>, Seq<char>)>,
    x: (Seq<char>, Seq<char>, Seq<char>),
) -> Seq<(Seq<char>, Seq<char>, Seq<char>)> {
    match first_index(s.len() as int, setting_for(s, x.0, x.1)) {
        Some(j) => s.update(j, x),
        None => s.push(x),
    }
}

/// Whether no two plugin settings are for the same plugin and key.
pub open spec fn one_per_key(s: Seq<(Seq<char>, Seq<char>, Seq<char>)>) -> bool {
    forall|i: int, j: int| 0 <= i < j < s.len() ==> !(#[trigger] s[i].0 == #[trigger] s[j].0 && s[i].1 == s[j].1)
}

/// Putting a setting in keeps one entry per plugin and key, and the entry for its
/// plugin and key holds its value.
pub proof fn lemma_put_setting(s: Seq<(Seq<char>, Seq<char>, Seq<char>)>, x: (Seq<char>, Seq<char>, Seq<char>))
    requires
        one_per_key(s),
    ensures
        one_per_key(put_setting(s, x)),
        exists|j: int| 0 <= j < put_setting(s, x).len() && #[trigger] put_setting(s, x)[j] == x,
{
    let f = setting_for(s, x.0, x.1);
    lemma_first_index(s.len() as int, f);
    let r = put_setting(s, x);
    match first_index(s.len() as int, f) {
        Some(j) => {
            assert(r[j] == x);
            assert forall|a: int, b: int| 0 <= a < b < r.len() implies !(#[trigger] r[a].0 == #[trigger] r[b].0 && r[a].1 == r[b].1) by {
                if a != j && b != j {
                    assert(r[a] == s[a] && r[b] == s[b]);
                } else if a == j {
                    assert(r[b] == s[b]);
                } else {
                    assert(r[a] == s[a]);
                }
            }
        },
        None => {
            assert(r[s.len() as int] == x);
            assert forall|a: int, b: int| 0 <= a < b < r.len() implies !(#[trigger] r[a].0 == #[trigger] r[b].0 && r[a].1 == r[b].1) by {
                if b < s.len() {
                    assert(r[a] == s[a] && r[b] == s[b]);
                } else {
                    assert(r[a] == s[a]);
                    assert(!f(a));
                }
            }
        },
    }
}

pub open spec fn setting_views(v: Seq<(String, String, String)>) -> Seq<(Seq<char>, Seq<char>, Seq<char>)> {
    v.map_values(|x: (String, String, String)| (x.0@, x.1@, x.2@))
}

/// Puts a plugin setting in (see [`put_setting`]).
fn put_plugin_setting(settings: &mut Vec<(String, String, String)>, x: (String, String, String))
    ensures
        setting_views(final(settings)@) == put_setting(setting_views(old(settings)@), (x.0@, x.1@, x.2@)),
{
    let ghost sv = setting_views(settings@);
    let ghost xv = (x.0@, x.1@, x.2@);
    let ghost f = setting_for(sv, xv.0, xv.1);
    let mut j: usize = 0;
    while j < settings.len()
        invariant
            j <= settings@.len(),
            settings@ == old(settings)@,
            sv == setting_views(settings@),
            f == setting_for(sv, xv.0, xv.1),
            xv == (x.0@, x.1@, x.2@),
            forall|k: int| 0 <= k < j ==> !#[trigger] f(k),
        decreases settings@.len() - j,
    {
        proof {
            assert(sv[j as int] == (settings@[j as int].0@, settings@[j as int].1@, settings@[j as int].2@));
        }
        if crate::text::str_eq(settings[j].0.as_str(), x.0.as_str()) && crate::text::str_eq(
            settings[j].1.as_str(),
            x.1.as_str(),
        ) {
            proof {
                assert(f(j as int));
                lemma_first_index_at(sv.len() as int, f, j as int);
            }
            settings.set(j, x);
            proof {
                assert(setting_views(settings@) =~= sv.update(j as int, xv));
            }
            return;
        }
        j = j + 1;
    }
    proof {
        lemma_first_index(sv.len() as int, f);
        if first_index(sv.len() as int, f) is Some {
            let k = first_index(sv.len() as int, f).unwrap();
            assert(f(k));
        }
    }
    settings.push(x);
    proof {
        assert(setting_views(settings@) =~= sv.push(xv));
    }
}

/// The settings of an .asr file gathered so far: for each single setting the first
/// value met, the plugin settings (one per plugin and key, see [`put_setting`]) and
/// the map elements in file order.
pub struct AsrAccV {
    pub above: Option<Option<u32>>,
    pub below: Option<Option<u32>>,
    pub disable_panning: Option<bool>,
    pub disable_zooming: Option<bool>,
    pub display_rotation: Option<Seq<char>>,
    pub display_type: Option<DisplayType>,
    pub display_type_geo_referenced: Option<bool>,
    pub display_type_need_radar_content: Option<bool>,
    pub history_dots: Option<u8>,
    pub leader: Option<Leader>,
    pub sector_file: Option<Seq<char>>,
    pub sector_title: Option<Seq<char>>,
    pub show_leader: Option<bool>,
    pub show_c: Option<bool>,
    pub show_standby: Option<bool>,
    pub simulation_mode: Option<SimulationMode>,
    pub tag_family: Option<Seq<char>>,
    pub turn_leader: Option<bool>,
    pub window_area: Option<(Seq<char>, Seq<char>, Seq<char>, Seq<char>)>,
    pub plugin_settings: Seq<(Seq<char>, Seq<char>, Seq<char>)>,
    pub map: AsrMapV,
}

/// `first` unless it is already set.
pub open spec fn keep_first<T>(first: Option<T>, x: T) -> Option<T> {
    match first {
        Some(f) => Some(f),
        None => Some(x),
    }
}

/// Nothing gathered yet.
pub open spec fn acc_init() -> AsrAccV {
    AsrAccV {
        above: None,
        below: None,
        disable_panning: None,
        disable_zooming: None,
        display_rotation: None,
        display_type: None,
        display_type_geo_referenced: None,
        display_type_need_radar_content: None,
        history_dots: None,
        leader: None,
        sector_file: None,
        sector_title: None,
        show_leader: None,
        show_c: None,
        show_standby: None,
        simulation_mode: None,
        tag_family: None,
        turn_leader: None,
        window_area: None,
        plugin_settings: seq![],
        map: empty_map(),
    }
}

/// Gathers one more setting.
pub open spec fn acc_step(a: AsrAccV, d: AsrDataV) -> AsrAccV {
    match d {
        AsrDataV::Above(x) => AsrAccV { above: keep_first(a.above, x), ..a },
        AsrDataV::Below(x) => AsrAccV { below: keep_first(a.below, x), ..a },
        AsrDataV::DisablePanning(x) => AsrAccV {
            disable_panning: keep_first(a.disable_panning, x),
            ..a
        },
        AsrDataV::DisableZooming(x) => AsrAccV {
            disable_zooming: keep_first(a.disable_zooming, x),
            ..a
        },
        AsrDataV::DisplayRotation(x) => AsrAccV {
            display_rotation: keep_first(a.display_rotation, x),
            ..a
        },
        AsrDataV::DisplayType(x) => AsrAccV { display_type: keep_first(a.display_type, x), ..a },
        AsrDataV::DisplayTypeGeoReferenced(x) => AsrAccV {
            display_type_geo_referenced: keep_first(a.display_type_geo_referenced, x),
            ..a
        },
        AsrDataV::DisplayTypeNeedRadarContent(x) => AsrAccV {
            display_type_need_radar_content: keep_first(a.display_type_need_radar_content, x),
            ..a
        },
        AsrDataV::HistoryDots(x) => AsrAccV { history_dots: keep_first(a.history_dots, x), ..a },
        AsrDataV::Leader(x) => AsrAccV { leader: keep_first(a.leader, x), ..a },
        AsrDataV::SectorFile(x) => AsrAccV { sector_file: keep_first(a.sector_file, x), ..a },
        AsrDataV::SectorTitle(x) => AsrAccV { sector_title: keep_first(a.sector_title, x), ..a },
        AsrDataV::ShowLeader(x) => AsrAccV { show_leader: keep_first(a.show_leader, x), ..a },
        AsrDataV::ShowC(x) => AsrAccV { show_c: keep_first(a.show_c, x), ..a },
        AsrDataV::ShowStandby(x) => AsrAccV { show_standby: keep_first(a.show_standby, x), ..a },
        AsrDataV::SimulationMode(x) => AsrAccV {
            simulation_mode: keep_first(a.simulation_mode, x),
            ..a
        },
        AsrDataV::TagFamily(x) => AsrAccV { tag_family: keep_first(a.tag_family, x), ..a },
        AsrDataV::TurnLeader(x) => AsrAccV { turn_leader: keep_first(a.turn_leader, x), ..a },
        AsrDataV::WindowArea(x) => AsrAccV { window_area: keep_first(a.window_area, x), ..a },
        AsrDataV::PluginSetting(x) => AsrAccV { plugin_settings: put_setting(a.plugin_settings, x), ..a },
        _ => AsrAccV { map: map_step(a.map, d), ..a },
    }
}

/// Everything gathered from a sequence of settings.
pub open spec fn acc_all(ds: Seq<AsrDataV>) -> AsrAccV
    decreases ds.len(),
{
    if ds.len() == 0 {
        acc_init()
    } else {
        acc_step(acc_all(ds.drop_last()), ds.last())
    }
}

/// The settings held by the lines of an .asr file, in order; `Err(i)` when line
/// `i` (counted from zero) is invalid and no earlier one is.
pub open spec fn asr_settings(lines: Seq<Seq<char>>) -> Result<Seq<AsrDataV>, nat>
    decreases lines.len(),
{
    if lines.len() == 0 {
        Ok(seq![])
    } else {
        match asr_settings(lines.drop_last()) {
            Err(i) => Err(i),
            Ok(ds) => match asr_line(lines.last()) {
                Err(()) => Err((lines.len() - 1) as nat),
                Ok(None) => Ok(ds),
                Ok(Some(d)) => Ok(ds.push(d)),
            },
        }
    }
}

/// Data of a EuroScope .asr file. These settings are not necessarily all respected
/// by a client.
#[derive(Debug)]
pub struct Asr {
    /// ABOVE: do not display aircraft above this many feet; `None` for no filter.
    pub above: Option<u32>,
    /// BELOW: do not display aircraft below this many feet; `None` for no filter.
    pub below: Option<u32>,
    pub disable_panning: bool,
    pub disable_zooming: bool,
    /// DISPLAYROTATION in degrees, as written in the file.
    pub display_rotation: String,
    pub display_type: DisplayType,
    /// whether coordinates are latitude/longitude pairs rather than pixels
    pub display_type_geo_referenced: bool,
    /// whether the sector file's background elements are drawn
    pub display_type_need_radar_content: bool,
    /// number of history dots per aircraft
    pub history_dots: u8,
    pub leader: Leader,
    /// the sector file this .asr belongs to
    pub sector_file: String,
    pub sector_title: String,
    pub show_leader: bool,
    /// show mode C aircraft
    pub show_c: bool,
    /// show aircraft on standby
    pub show_standby: bool,
    pub simulation_mode: SimulationMode,
    pub tag_family: String,
    pub turn_leader: bool,
    /// WINDOWAREA: latitude and longitude of the bottom left and the top right
    /// corner in degrees, as written in the file.
    pub window_area: (String, String, String, String),
    /// (plugin name, key, value), one entry per plugin and key: where a plugin and
    /// key occur twice, the last value counts (see [`put_setting`]).
    pub plugin_settings: Vec<(String, String, String)>,
    /// elements to show on the map
    pub map: AsrMap,
}

/// [`Asr`] with its text as character sequences.
pub struct AsrV {
    pub above: Option<u32>,
    pub below: Option<u32>,
    pub disable_panning: bool,
    pub disable_zooming: bool,
    pub display_rotation: Seq<char>,
    pub display_type: DisplayType,
    pub display_type_geo_referenced: bool,
    pub display_type_need_radar_content: bool,
    pub history_dots: u8,
    pub leader: Leader,
    pub sector_file: Seq<char>,
    pub sector_title: Seq<char>,
    pub show_leader: bool,
    pub show_c: bool,
    pub show_standby: bool,
    pub simulation_mode: SimulationMode,
    pub tag_family: Seq<char>,
    pub turn_leader: bool,
    pub window_area: (Seq<char>, Seq<char>, Seq<char>, Seq<char>),
    pub plugin_settings: Seq<(Seq<char>, Seq<char>, Seq<char>)>,
    pub map: AsrMapV,
}

impl View for Asr {
    type V = AsrV;

    open spec fn view(&self) -> AsrV {
        AsrV {
            above: self.above,
            below: self.below,
            disable_panning: self.disable_panning,
            disable_zooming: self.disable_zooming,
            display_rotation: self.display_rotation@,
            display_type: self.display_type,
            display_type_geo_referenced: self.display_type_geo_referenced,
            display_type_need_radar_content: self.display_type_need_radar_content,
            history_dots: self.history_dots,
            leader: self.leader,
            sector_file: self.sector_file@,
            sector_title: self.sector_title@,
            show_leader: self.show_leader,
            show_c: self.show_c,
            show_standby: self.show_standby,
            simulation_mode: self.simulation_mode,
            tag_family: self.tag_family@,
            turn_leader: self.turn_leader,
            window_area: (
                self.window_area.0@,
                self.window_area.1@,
                self.window_area.2@,
                self.window_area.3@,
            ),
            plugin_settings: self.plugin_settings@.map_values(
                |x: (String, String, String)| (x.0@, x.1@, x.2@),
            ),
            map: self.map@,
        }
    }
}

/// The value set, or the default.
pub open spec fn or_default<T>(x: Option<T>, default: T) -> T {
    match x {
        Some(v) => v,
        None => default,
    }
}

/// The settings of an .asr file, with EuroScope's defaults for those it does not
/// set: no altitude filters, panning and zooming allowed, no rotation, the
/// standard radar display with geographic coordinates and background elements,
/// 5 history dots, a 3 minute leader not shown, mode C shown and standby not,
/// radar simulation, the built-in Matias tag family and a window over southern
/// Germany.
pub open spec fn asr_from_settings(ds: Seq<AsrDataV>) -> AsrV {
    asr_finish(acc_all(ds))
}

/// The settings gathered, with defaults for those not set (see
/// [`asr_from_settings`]).
pub open spec fn asr_finish(a: AsrAccV) -> AsrV {
    AsrV {
        above: or_default(a.above, None),
        below: or_default(a.below, None),
        disable_panning: or_default(a.disable_panning, false),
        disable_zooming: or_default(a.disable_zooming, false),
        display_rotation: or_default(a.display_rotation, "0"@),
        display_type: or_default(a.display_type, DisplayType::Radar),
        display_type_geo_referenced: or_default(a.display_type_geo_referenced, true),
        display_type_need_radar_content: or_default(a.display_type_need_radar_content, true),
        history_dots: or_default(a.history_dots, 5),
        leader: or_default(a.leader, Leader::Minutes(3)),
        sector_file: or_default(a.sector_file, seq![]),
        sector_title: or_default(a.sector_title, seq![]),
        show_leader: or_default(a.show_leader, false),
        show_c: or_default(a.show_c, true),
        show_standby: or_default(a.show_standby, false),
        simulation_mode: or_default(a.simulation_mode, SimulationMode::Radar),
        tag_family: or_default(a.tag_family, "Matias (built in)"@),
        turn_leader: or_default(a.turn_leader, false),
        window_area: or_default(
            a.window_area,
            ("46.529122"@, "6.678287"@, "50.105536"@, "16.599900"@),
        ),
        plugin_settings: a.plugin_settings,
        map: a.map,
    }
}

/// What an .asr text holds: its settings, or the (zero-based) index of the first
/// invalid line.
pub open spec fn asr_text(text: Seq<char>) -> Result<AsrV, nat> {
    match asr_settings(lines_spec(text)) {
        Ok(ds) => Ok(asr_from_settings(ds)),
        Err(i) => Err(i),
    }
}

/// The keys of .asr lines up to `Sids` and `Stars`, as their characters.
proof fn lemma_asr_keys()
    ensures
        "Sids"@ =~= seq!['S', 'i', 'd', 's'],
        "Stars"@ =~= seq!['S', 't', 'a', 'r', 's'],
{
    reveal_strlit("DisplayTypeName");
    reveal_strlit("DisplayTypeNeedRadarContent");
    reveal_strlit("DisplayTypeGeoReferenced");
    reveal_strlit("SECTORFILE");
    reveal_strlit("SECTORTITLE");
    reveal_strlit("SHOWC");
    reveal_strlit("SHOWSB");
    reveal_strlit("ABOVE");
    reveal_strlit("BELOW");
    reveal_strlit("LEADER");
    reveal_strlit("SHOWLEADER");
    reveal_strlit("TURNLEADER");
    reveal_strlit("HISTORY_DOTS");
    reveal_strlit("SIMULATION_MODE");
    reveal_strlit("DISABLEPANNING");
    reveal_strlit("DISABLEZOOMING");
    reveal_strlit("DISPLAYROTATION");
    reveal_strlit("TAGFAMILY");
    reveal_strlit("WINDOWAREA");
    reveal_strlit("PLUGIN");
    reveal_strlit("Runways");
    reveal_strlit("Airports");
    reveal_strlit("Fixes");
    reveal_strlit("NDBs");
    reveal_strlit("VORs");
    reveal_strlit("Sids");
    reveal_strlit("Stars");
}

/// A line `KEY:NAME`, `KEY` without a colon and `NAME` without one: its key is
/// `KEY`, what follows the colon is `NAME`, and the part of that before any colon
/// is `NAME` too.
proof fn lemma_key_line(key: Seq<char>, name: Seq<char>)
    requires
        forall|i: int| 0 <= i < key.len() ==> key[i] != ':',
        forall|i: int| 0 <= i < name.len() ==> name[i] != ':',
    ensures
        before_first(key + seq![':'] + name, ':') == key,
        after_first(key + seq![':'] + name, ':') == Some(name),
        before_first(name, ':') == name,
{
    let l = key + seq![':'] + name;
    crate::text::lemma_find_first(l, ':', key.len() as int);
    crate::text::lemma_find_first(name, ':', name.len() as int);
    assert(l.take(key.len() as int) =~= key);
    assert(l.skip(key.len() as int + 1) =~= name);
}

/// What an .asr file shows after one more line: the settings of `lines` with the
/// setting `d` of the line added.
proof fn lemma_one_more_line(lines: Seq<Seq<char>>, l: Seq<char>, d: AsrDataV)
    requires
        asr_settings(lines) is Ok,
        asr_line(l) == Ok::<Option<AsrDataV>, ()>(Some(d)),
    ensures
        asr_settings(lines.push(l)) == Ok::<Seq<AsrDataV>, nat>(asr_settings(lines)->Ok_0.push(d)),
{
    assert(lines.push(l).drop_last() =~= lines);
}

/// The line `Stars:NAME` shows the STAR `NAME` on the map: after the lines of a
/// valid .asr file it adds `NAME` to the STARs shown, after those already there,
/// and leaves the SIDs and every other kind of map element as they were.
pub proof fn lemma_stars_line(lines: Seq<Seq<char>>, name: Seq<char>)
    requires
        asr_settings(lines) is Ok,
        forall|i: int| 0 <= i < name.len() ==> name[i] != ':',
    ensures
        ({
            let before = asr_from_settings(asr_settings(lines)->Ok_0).map;
            let l = "Stars:"@ + name;
            &&& asr_settings(lines.push(l)) is Ok
            &&& asr_from_settings(asr_settings(lines.push(l))->Ok_0).map == AsrMapV {
                stars: before.stars.push(name),
                ..before
            }
        }),
{
    lemma_asr_keys();
    reveal_strlit("DisplayTypeName");
    reveal_strlit("DisplayTypeNeedRadarContent");
    reveal_strlit("DisplayTypeGeoReferenced");
    reveal_strlit("SECTORFILE");
    reveal_strlit("SECTORTITLE");
    reveal_strlit("SHOWC");
    reveal_strlit("SHOWSB");
    reveal_strlit("ABOVE");
    reveal_strlit("BELOW");
    reveal_strlit("LEADER");
    reveal_strlit("SHOWLEADER");
    reveal_strlit("TURNLEADER");
    reveal_strlit("HISTORY_DOTS");
    reveal_strlit("SIMULATION_MODE");
    reveal_strlit("DISABLEPANNING");
    reveal_strlit("DISABLEZOOMING");
    reveal_strlit("DISPLAYROTATION");
    reveal_strlit("TAGFAMILY");
    reveal_strlit("WINDOWAREA");
    reveal_strlit("PLUGIN");
    reveal_strlit("Runways");
    reveal_strlit("Airports");
    reveal_strlit("Fixes");
    reveal_strlit("NDBs");
    reveal_strlit("VORs");
    reveal_strlit("Sids");
    reveal_strlit("Stars");
    reveal_strlit("Stars:");
    let key = "Stars"@;
    assert("Stars:"@ =~= key + seq![':']);
    lemma_key_line(key, name);
    let l = "Stars:"@ + name;
    assert(l =~= key + seq![':'] + name);
    assert(asr_line(l) == Ok::<Option<AsrDataV>, ()>(Some(AsrDataV::Star(name))));
    lemma_one_more_line(lines, l, AsrDataV::Star(name));
    let ds = asr_settings(lines)->Ok_0;
    let d = AsrDataV::Star(name);
    assert(ds.push(d).drop_last() =~= ds);
    assert(acc_all(ds.push(d)) == acc_step(acc_all(ds), d));
    assert(acc_step(acc_all(ds), d).map == map_step(acc_all(ds).map, d));
}

/// The line `Sids:NAME` shows the SID `NAME` on the map: after the lines of a valid
/// .asr file it adds `NAME` to the SIDs shown, after those already there, and leaves
/// the STARs and every other kind of map element as they were.
pub proof fn lemma_sids_line(lines: Seq<Seq<char>>, name: Seq<char>)
    requires
        asr_settings(lines) is Ok,
        forall|i: int| 0 <= i < name.len() ==> name[i] != ':',
    ensures
        ({
            let before = asr_from_settings(asr_settings(lines)->Ok_0).map;
            let l = "Sids:"@ + name;
            &&& asr_settings(lines.push(l)) is Ok
            &&& asr_from_settings(asr_settings(lines.push(l))->Ok_0).map == AsrMapV {
                sids: before.sids.push(name),
                ..before
            }
        }),
{
    lemma_asr_keys();
    reveal_strlit("DisplayTypeName");
    reveal_strlit("DisplayTypeNeedRadarContent");
    reveal_strlit("DisplayTypeGeoReferenced");
    reveal_strlit("SECTORFILE");
    reveal_strlit("SECTORTITLE");
    reveal_strlit("SHOWC");
    reveal_strlit("SHOWSB");
    reveal_strlit("ABOVE");
    reveal_strlit("BELOW");
    reveal_strlit("LEADER");
    reveal_strlit("SHOWLEADER");
    reveal_strlit("TURNLEADER");
    reveal_strlit("HISTORY_DOTS");
    reveal_strlit("SIMULATION_MODE");
    reveal_strlit("DISABLEPANNING");
    reveal_strlit("DISABLEZOOMING");
    reveal_strlit("DISPLAYROTATION");
    reveal_strlit("TAGFAMILY");
    reveal_strlit("WINDOWAREA");
    reveal_strlit("PLUGIN");
    reveal_strlit("Runways");
    reveal_strlit("Airports");
    reveal_strlit("Fixes");
    reveal_strlit("NDBs");
    reveal_strlit("VORs");
    reveal_strlit("Sids");
    reveal_strlit("Stars");
    reveal_strlit("Sids:");
    let key = "Sids"@;
    assert("Sids:"@ =~= key + seq![':']);
    lemma_key_line(key, name);
    let l = "Sids:"@ + name;
    assert(l =~= key + seq![':'] + name);
    assert(asr_line(l) == Ok::<Option<AsrDataV>, ()>(Some(AsrDataV::Sid(name))));
    lemma_one_more_line(lines, l, AsrDataV::Sid(name));
    let ds = asr_settings(lines)->Ok_0;
    let d = AsrDataV::Sid(name);
    assert(ds.push(d).drop_last() =~= ds);
    assert(acc_all(ds.push(d)) == acc_step(acc_all(ds), d));
    assert(acc_step(acc_all(ds), d).map == map_step(acc_all(ds).map, d));
}

/// A line `KEY:VALUE`, `KEY` without a colon: its key is `KEY` and what follows
/// the colon is `VALUE`, whatever it holds; and a value without a colon is its own
/// part before a colon.
proof fn lemma_key_after(key: Seq<char>, v: Seq<char>)
    requires
        forall|i: int| 0 <= i < key.len() ==> key[i] != ':',
    ensures
        before_first(key + seq![':'] + v, ':') == key,
        after_first(key + seq![':'] + v, ':') == Some(v),
        (forall|i: int| 0 <= i < v.len() ==> v[i] != ':') ==> before_first(v, ':') == v,
{
    let l = key + seq![':'] + v;
    crate::text::lemma_find_first(l, ':', key.len() as int);
    assert(l.take(key.len() as int) =~= key);
    assert(l.skip(key.len() as int + 1) =~= v);
    if forall|i: int| 0 <= i < v.len() ==> v[i] != ':' {
        crate::text::lemma_find_first(v, ':', v.len() as int);
    }
}

/// The line `Airports:ELEMENT`, the element valid, shows that airport on the map: after
/// the lines of a valid .asr file it adds the element to the airports shown, after
/// those already there, and leaves every other kind of map element as it was.
pub proof fn lemma_airports_line(lines: Seq<Seq<char>>, v: Seq<char>)
    requires
        asr_settings(lines) is Ok,
        fix_element_spec(v) is Some,
    ensures
        ({
            let before = asr_from_settings(asr_settings(lines)->Ok_0).map;
            let l = "Airports:"@ + v;
            &&& asr_settings(lines.push(l)) is Ok
            &&& asr_from_settings(asr_settings(lines.push(l))->Ok_0).map == AsrMapV {
                airports: before.airports.push(fix_element_spec(v)->0),
                ..before
            }
        }),
{
    reveal_strlit("DisplayTypeName");
    reveal_strlit("DisplayTypeNeedRadarContent");
    reveal_strlit("DisplayTypeGeoReferenced");
    reveal_strlit("SECTORFILE");
    reveal_strlit("SECTORTITLE");
    reveal_strlit("SHOWC");
    reveal_strlit("SHOWSB");
    reveal_strlit("ABOVE");
    reveal_strlit("BELOW");
    reveal_strlit("LEADER");
    reveal_strlit("SHOWLEADER");
    reveal_strlit("TURNLEADER");
    reveal_strlit("HISTORY_DOTS");
    reveal_strlit("SIMULATION_MODE");
    reveal_strlit("DISABLEPANNING");
    reveal_strlit("DISABLEZOOMING");
    reveal_strlit("DISPLAYROTATION");
    reveal_strlit("TAGFAMILY");
    reveal_strlit("WINDOWAREA");
    reveal_strlit("PLUGIN");
    reveal_strlit("Runways");
    reveal_strlit("Airports");
    reveal_strlit("Airports:");
    let key = "Airports"@;
    assert(key =~= seq!['A', 'i', 'r', 'p', 'o', 'r', 't', 's']);
    assert("Airports:"@ =~= key + seq![':']);
    lemma_key_after(key, v);
    let l = "Airports:"@ + v;
    assert(l =~= key + seq![':'] + v);
    let d = AsrDataV::Airport(fix_element_spec(v)->0);
    assert(asr_line(l) == Ok::<Option<AsrDataV>, ()>(Some(d)));
    lemma_one_more_line(lines, l, d);
    let ds = asr_settings(lines)->Ok_0;
    assert(ds.push(d).drop_last() =~= ds);
    assert(acc_all(ds.push(d)) == acc_step(acc_all(ds), d));
    assert(acc_step(acc_all(ds), d).map == map_step(acc_all(ds).map, d));
}

/// The line `Fixes:ELEMENT`, the element valid, shows that fix on the map: after
/// the lines of a valid .asr file it adds the element to the fixs shown, after
/// those already there, and leaves every other kind of map element as it was.
pub proof fn lemma_fixes_line(lines: Seq<Seq<char>>, v: Seq<char>)
    requires
        asr_settings(lines) is Ok,
        fix_element_spec(v) is Some,
    ensures
        ({
            let before = asr_from_settings(asr_settings(lines)->Ok_0).map;
            let l = "Fixes:"@ + v;
            &&& asr_settings(lines.push(l)) is Ok
            &&& asr_from_settings(asr_settings(lines.push(l))->Ok_0).map == AsrMapV {
                fixes: before.fixes.push(fix_element_spec(v)->0),
                ..before
            }
        }),
{
    reveal_strlit("DisplayTypeName");
    reveal_strlit("DisplayTypeNeedRadarContent");
    reveal_strlit("DisplayTypeGeoReferenced");
    reveal_strlit("SECTORFILE");
    reveal_strlit("SECTORTITLE");
    reveal_strlit("SHOWC");
    reveal_strlit("SHOWSB");
    reveal_strlit("ABOVE");
    reveal_strlit("BELOW");
    reveal_strlit("LEADER");
    reveal_strlit("SHOWLEADER");
    reveal_strlit("TURNLEADER");
    reveal_strlit("HISTORY_DOTS");
    reveal_strlit("SIMULATION_MODE");
    reveal_strlit("DISABLEPANNING");
    reveal_strlit("DISABLEZOOMING");
    reveal_strlit("DISPLAYROTATION");
    reveal_strlit("TAGFAMILY");
    reveal_strlit("WINDOWAREA");
    reveal_strlit("PLUGIN");
    reveal_strlit("Runways");
    reveal_strlit("Airports");
    reveal_strlit("Fixes");
    reveal_strlit("Fixes:");
    let key = "Fixes"@;
    assert(key =~= seq!['F', 'i', 'x', 'e', 's']);
    assert("Fixes:"@ =~= key + seq![':']);
    lemma_key_after(key, v);
    let l = "Fixes:"@ + v;
    assert(l =~= key + seq![':'] + v);
    let d = AsrDataV::Fix(fix_element_spec(v)->0);
    assert(asr_line(l) == Ok::<Option<AsrDataV>, ()>(Some(d)));
    lemma_one_more_line(lines, l, d);
    let ds = asr_settings(lines)->Ok_0;
    assert(ds.push(d).drop_last() =~= ds);
    assert(acc_all(ds.push(d)) == acc_step(acc_all(ds), d));
    assert(acc_step(acc_all(ds), d).map == map_step(acc_all(ds).map, d));
}

/// The line `NDBs:ELEMENT`, the element valid, shows that NDB on the map: after
/// the lines of a valid .asr file it adds the element to the NDBs shown, after
/// those already there, and leaves every other kind of map element as it was.
pub proof fn lemma_ndbs_line(lines: Seq<Seq<char>>, v: Seq<char>)
    requires
        asr_settings(lines) is Ok,
        navaid_element_spec(v) is Some,
    ensures
        ({
            let before = asr_from_settings(asr_settings(lines)->Ok_0).map;
            let l = "NDBs:"@ + v;
            &&& asr_settings(lines.push(l)) is Ok
            &&& asr_from_settings(asr_settings(lines.push(l))->Ok_0).map == AsrMapV {
                ndbs: before.ndbs.push(navaid_element_spec(v)->0),
                ..before
            }
        }),
{
    reveal_strlit("DisplayTypeName");
    reveal_strlit("DisplayTypeNeedRadarContent");
    reveal_strlit("DisplayTypeGeoReferenced");
    reveal_strlit("SECTORFILE");
    reveal_strlit("SECTORTITLE");
    reveal_strlit("SHOWC");
    reveal_strlit("SHOWSB");
    reveal_strlit("ABOVE");
    reveal_strlit("BELOW");
    reveal_strlit("LEADER");
    reveal_strlit("SHOWLEADER");
    reveal_strlit("TURNLEADER");
    reveal_strlit("HISTORY_DOTS");
    reveal_strlit("SIMULATION_MODE");
    reveal_strlit("DISABLEPANNING");
    reveal_strlit("DISABLEZOOMING");
    reveal_strlit("DISPLAYROTATION");
    reveal_strlit("TAGFAMILY");
    reveal_strlit("WINDOWAREA");
    reveal_strlit("PLUGIN");
    reveal_strlit("Runways");
    reveal_strlit("Airports");
    reveal_strlit("Fixes");
    reveal_strlit("NDBs");
    reveal_strlit("NDBs:");
    let key = "NDBs"@;
    assert(key =~= seq!['N', 'D', 'B', 's']);
    assert("NDBs:"@ =~= key + seq![':']);
    lemma_key_after(key, v);
    let l = "NDBs:"@ + v;
    assert(l =~= key + seq![':'] + v);
    let d = AsrDataV::Ndb(navaid_element_spec(v)->0);
    assert(asr_line(l) == Ok::<Option<AsrDataV>, ()>(Some(d)));
    lemma_one_more_line(lines, l, d);
    let ds = asr_settings(lines)->Ok_0;
    assert(ds.push(d).drop_last() =~= ds);
    assert(acc_all(ds.push(d)) == acc_step(acc_all(ds), d));
    assert(acc_step(acc_all(ds), d).map == map_step(acc_all(ds).map, d));
}

/// The line `VORs:ELEMENT`, the element valid, shows that VOR on the map: after
/// the lines of a valid .asr file it adds the element to the VORs shown, after
/// those already there, and leaves every other kind of map element as it was.
pub proof fn lemma_vors_line(lines: Seq<Seq<char>>, v: Seq<char>)
    requires
        asr_settings(lines) is Ok,
        navaid_element_spec(v) is Some,
    ensures
        ({
            let before = asr_from_settings(asr_settings(lines)->Ok_0).map;
            let l = "VORs:"@ + v;
            &&& asr_settings(lines.push(l)) is Ok
            &&& asr_from_settings(asr_settings(lines.push(l))->Ok_0).map == AsrMapV {
                vors: before.vors.push(navaid_element_spec(v)->0),
                ..before
            }
        }),
{
    reveal_strlit("DisplayTypeName");
    reveal_strlit("DisplayTypeNeedRadarContent");
    reveal_strlit("DisplayTypeGeoReferenced");
    reveal_strlit("SECTORFILE");
    reveal_strlit("SECTORTITLE");
    reveal_strlit("SHOWC");
    reveal_strlit("SHOWSB");
    reveal_strlit("ABOVE");
    reveal_strlit("BELOW");
    reveal_strlit("LEADER");
    reveal_strlit("SHOWLEADER");
    reveal_strlit("TURNLEADER");
    reveal_strlit("HISTORY_DOTS");
    reveal_strlit("SIMULATION_MODE");
    reveal_strlit("DISABLEPANNING");
    reveal_strlit("DISABLEZOOMING");
    reveal_strlit("DISPLAYROTATION");
    reveal_strlit("TAGFAMILY");
    reveal_strlit("WINDOWAREA");
    reveal_strlit("PLUGIN");
    reveal_strlit("Runways");
    reveal_strlit("Airports");
    reveal_strlit("Fixes");
    reveal_strlit("NDBs");
    reveal_strlit("VORs");
    reveal_strlit("VORs:");
    let key = "VORs"@;
    assert(key =~= seq!['V', 'O', 'R', 's']);
    assert("VORs:"@ =~= key + seq![':']);
    lemma_key_after(key, v);
    let l = "VORs:"@ + v;
    assert(l =~= key + seq![':'] + v);
    let d = AsrDataV::Vor(navaid_element_spec(v)->0);
    assert(asr_line(l) == Ok::<Option<AsrDataV>, ()>(Some(d)));
    lemma_one_more_line(lines, l, d);
    let ds = asr_settings(lines)->Ok_0;
    assert(ds.push(d).drop_last() =~= ds);
    assert(acc_all(ds.push(d)) == acc_step(acc_all(ds), d));
    assert(acc_step(acc_all(ds), d).map == map_step(acc_all(ds).map, d));
}

/// The line `Low airways:ELEMENT`, the element valid, shows that low airway on the map: after
/// the lines of a valid .asr file it adds the element to the low airways shown, after
/// those already there, and leaves every other kind of map element as it was.
pub proof fn lemma_low_airways_line(lines: Seq<Seq<char>>, v: Seq<char>)
    requires
        asr_settings(lines) is Ok,
        airway_element_spec(v) is Some,
    ensures
        ({
            let before = asr_from_settings(asr_settings(lines)->Ok_0).map;
            let l = "Low airways:"@ + v;
            &&& asr_settings(lines.push(l)) is Ok
            &&& asr_from_settings(asr_settings(lines.push(l))->Ok_0).map == AsrMapV {
                low_airways: before.low_airways.push(airway_element_spec(v)->0),
                ..before
            }
        }),
{
    reveal_strlit("DisplayTypeName");
    reveal_strlit("DisplayTypeNeedRadarContent");
    reveal_strlit("DisplayTypeGeoReferenced");
    reveal_strlit("SECTORFILE");
    reveal_strlit("SECTORTITLE");
    reveal_strlit("SHOWC");
    reveal_strlit("SHOWSB");
    reveal_strlit("ABOVE");
    reveal_strlit("BELOW");
    reveal_strlit("LEADER");
    reveal_strlit("SHOWLEADER");
    reveal_strlit("TURNLEADER");
    reveal_strlit("HISTORY_DOTS");
    reveal_strlit("SIMULATION_MODE");
    reveal_strlit("DISABLEPANNING");
    reveal_strlit("DISABLEZOOMING");
    reveal_strlit("DISPLAYROTATION");
    reveal_strlit("TAGFAMILY");
    reveal_strlit("WINDOWAREA");
    reveal_strlit("PLUGIN");
    reveal_strlit("Runways");
    reveal_strlit("Airports");
    reveal_strlit("Fixes");
    reveal_strlit("NDBs");
    reveal_strlit("VORs");
    reveal_strlit("Sids");
    reveal_strlit("Stars");
    reveal_strlit("Low airways");
    reveal_strlit("Low airways:");
    let key = "Low airways"@;
    assert(key =~= seq!['L', 'o', 'w', ' ', 'a', 'i', 'r', 'w', 'a', 'y', 's']);
    assert("Low airways:"@ =~= key + seq![':']);
    lemma_key_after(key, v);
    let l = "Low airways:"@ + v;
    assert(l =~= key + seq![':'] + v);
    let d = AsrDataV::LowAirway(airway_element_spec(v)->0);
    assert(asr_line(l) == Ok::<Option<AsrDataV>, ()>(Some(d)));
    lemma_one_more_line(lines, l, d);
    let ds = asr_settings(lines)->Ok_0;
    assert(ds.push(d).drop_last() =~= ds);
    assert(acc_all(ds.push(d)) == acc_step(acc_all(ds), d));
    assert(acc_step(acc_all(ds), d).map == map_step(acc_all(ds).map, d));
}

/// The line `High airways:ELEMENT`, the element valid, shows that high airway on the map: after
/// the lines of a valid .asr file it adds the element to the high airways shown, after
/// those already there, and leaves every other kind of map element as it was.
pub proof fn lemma_high_airways_line(lines: Seq<Seq<char>>, v: Seq<char>)
    requires
        asr_settings(lines) is Ok,
        airway_element_spec(v) is Some,
    ensures
        ({
            let before = asr_from_settings(asr_settings(lines)->Ok_0).map;
            let l = "High airways:"@ + v;
            &&& asr_settings(lines.push(l)) is Ok
            &&& asr_from_settings(asr_settings(lines.push(l))->Ok_0).map == AsrMapV {
                high_airways: before.high_airways.push(airway_element_spec(v)->0),
                ..before
            }
        }),
{
    reveal_strlit("DisplayTypeName");
    reveal_strlit("DisplayTypeNeedRadarContent");
    reveal_strlit("DisplayTypeGeoReferenced");
    reveal_strlit("SECTORFILE");
    reveal_strlit("SECTORTITLE");
    reveal_strlit("SHOWC");
    reveal_strlit("SHOWSB");
    reveal_strlit("ABOVE");
    reveal_strlit("BELOW");
    reveal_strlit("LEADER");
    reveal_strlit("SHOWLEADER");
    reveal_strlit("TURNLEADER");
    reveal_strlit("HISTORY_DOTS");
    reveal_strlit("SIMULATION_MODE");
    reveal_strlit("DISABLEPANNING");
    reveal_strlit("DISABLEZOOMING");
    reveal_strlit("DISPLAYROTATION");
    reveal_strlit("TAGFAMILY");
    reveal_strlit("WINDOWAREA");
    reveal_strlit("PLUGIN");
    reveal_strlit("Runways");
    reveal_strlit("Airports");
    reveal_strlit("Fixes");
    reveal_strlit("NDBs");
    reveal_strlit("VORs");
    reveal_strlit("Sids");
    reveal_strlit("Stars");
    reveal_strlit("Low airways");
    reveal_strlit("High airways");
    reveal_strlit("High airways:");
    let key = "High airways"@;
    assert(key =~= seq!['H', 'i', 'g', 'h', ' ', 'a', 'i', 'r', 'w', 'a', 'y', 's']);
    assert("High airways:"@ =~= key + seq![':']);
    lemma_key_after(key, v);
    let l = "High airways:"@ + v;
    assert(l =~= key + seq![':'] + v);
    let d = AsrDataV::HighAirway(airway_element_spec(v)->0);
    assert(asr_line(l) == Ok::<Option<AsrDataV>, ()>(Some(d)));
    lemma_one_more_line(lines, l, d);
    let ds = asr_settings(lines)->Ok_0;
    assert(ds.push(d).drop_last() =~= ds);
    assert(acc_all(ds.push(d)) == acc_step(acc_all(ds), d));
    assert(acc_step(acc_all(ds), d).map == map_step(acc_all(ds).map, d));
}

/// The line `Geo:NAME` shows the geography `NAME` on the map: after the lines of a
/// valid .asr file it adds `NAME` to the geography items shown, after those already
/// there, and leaves every other kind of map element as it was.
pub proof fn lemma_geo_line(lines: Seq<Seq<char>>, v: Seq<char>)
    requires
        asr_settings(lines) is Ok,
        forall|i: int| 0 <= i < v.len() ==> v[i] != ':',
    ensures
        ({
            let before = asr_from_settings(asr_settings(lines)->Ok_0).map;
            let l = "Geo:"@ + v;
            &&& asr_settings(lines.push(l)) is Ok
            &&& asr_from_settings(asr_settings(lines.push(l))->Ok_0).map == AsrMapV {
                geo: before.geo.push(v),
                ..before
            }
        }),
{
    reveal_strlit("DisplayTypeName");
    reveal_strlit("DisplayTypeNeedRadarContent");
    reveal_strlit("DisplayTypeGeoReferenced");
    reveal_strlit("SECTORFILE");
    reveal_strlit("SECTORTITLE");
    reveal_strlit("SHOWC");
    reveal_strlit("SHOWSB");
    reveal_strlit("ABOVE");
    reveal_strlit("BELOW");
    reveal_strlit("LEADER");
    reveal_strlit("SHOWLEADER");
    reveal_strlit("TURNLEADER");
    reveal_strlit("HISTORY_DOTS");
    reveal_strlit("SIMULATION_MODE");
    reveal_strlit("DISABLEPANNING");
    reveal_strlit("DISABLEZOOMING");
    reveal_strlit("DISPLAYROTATION");
    reveal_strlit("TAGFAMILY");
    reveal_strlit("WINDOWAREA");
    reveal_strlit("PLUGIN");
    reveal_strlit("Runways");
    reveal_strlit("Airports");
    reveal_strlit("Fixes");
    reveal_strlit("NDBs");
    reveal_strlit("VORs");
    reveal_strlit("Sids");
    reveal_strlit("Stars");
    reveal_strlit("Low airways");
    reveal_strlit("High airways");
    reveal_strlit("Free Text");
    reveal_strlit("Geo");
    reveal_strlit("Geo:");
    let key = "Geo"@;
    assert(key =~= seq!['G', 'e', 'o']);
    assert("Geo:"@ =~= key + seq![':']);
    lemma_key_after(key, v);
    let l = "Geo:"@ + v;
    assert(l =~= key + seq![':'] + v);
    let d = AsrDataV::Geo(v);
    assert(asr_line(l) == Ok::<Option<AsrDataV>, ()>(Some(d)));
    lemma_one_more_line(lines, l, d);
    let ds = asr_settings(lines)->Ok_0;
    assert(ds.push(d).drop_last() =~= ds);
    assert(acc_all(ds.push(d)) == acc_step(acc_all(ds), d));
    assert(acc_step(acc_all(ds), d).map == map_step(acc_all(ds).map, d));
}

/// The line `Regions:NAME` shows the region `NAME` on the map: after the lines of a
/// valid .asr file it adds `NAME` to the region items shown, after those already
/// there, and leaves every other kind of map element as it was.
pub proof fn lemma_regions_line(lines: Seq<Seq<char>>, v: Seq<char>)
    requires
        asr_settings(lines) is Ok,
        forall|i: int| 0 <= i < v.len() ==> v[i] != ':',
    ensures
        ({
            let before = asr_from_settings(asr_settings(lines)->Ok_0).map;
            let l = "Regions:"@ + v;
            &&& asr_settings(lines.push(l)) is Ok
            &&& asr_from_settings(asr_settings(lines.push(l))->Ok_0).map == AsrMapV {
                regions: before.regions.push(v),
                ..before
            }
        }),
{
    reveal_strlit("DisplayTypeName");
    reveal_strlit("DisplayTypeNeedRadarContent");
    reveal_strlit("DisplayTypeGeoReferenced");
    reveal_strlit("SECTORFILE");
    reveal_strlit("SECTORTITLE");
    reveal_strlit("SHOWC");
    reveal_strlit("SHOWSB");
    reveal_strlit("ABOVE");
    reveal_strlit("BELOW");
    reveal_strlit("LEADER");
    reveal_strlit("SHOWLEADER");
    reveal_strlit("TURNLEADER");
    reveal_strlit("HISTORY_DOTS");
    reveal_strlit("SIMULATION_MODE");
    reveal_strlit("DISABLEPANNING");
    reveal_strlit("DISABLEZOOMING");
    reveal_strlit("DISPLAYROTATION");
    reveal_strlit("TAGFAMILY");
    reveal_strlit("WINDOWAREA");
    reveal_strlit("PLUGIN");
    reveal_strlit("Runways");
    reveal_strlit("Airports");
    reveal_strlit("Fixes");
    reveal_strlit("NDBs");
    reveal_strlit("VORs");
    reveal_strlit("Sids");
    reveal_strlit("Stars");
    reveal_strlit("Low airways");
    reveal_strlit("High airways");
    reveal_strlit("Free Text");
    reveal_strlit("Geo");
    reveal_strlit("Regions");
    reveal_strlit("Regions:");
    let key = "Regions"@;
    assert(key =~= seq!['R', 'e', 'g', 'i', 'o', 'n', 's']);
    assert("Regions:"@ =~= key + seq![':']);
    lemma_key_after(key, v);
    let l = "Regions:"@ + v;
    assert(l =~= key + seq![':'] + v);
    let d = AsrDataV::Region(v);
    assert(asr_line(l) == Ok::<Option<AsrDataV>, ()>(Some(d)));
    lemma_one_more_line(lines, l, d);
    let ds = asr_settings(lines)->Ok_0;
    assert(ds.push(d).drop_last() =~= ds);
    assert(acc_all(ds.push(d)) == acc_step(acc_all(ds), d));
    assert(acc_step(acc_all(ds), d).map == map_step(acc_all(ds).map, d));
}

/// The line `ARTCC boundary:NAME` shows the ARTCC boundary `NAME` on the map: after the lines of a
/// valid .asr file it adds `NAME` to the ARTCC boundary items shown, after those already
/// there, and leaves every other kind of map element as it was.
pub proof fn lemma_artcc_boundary_line(lines: Seq<Seq<char>>, v: Seq<char>)
    requires
        asr_settings(lines) is Ok,
        forall|i: int| 0 <= i < v.len() ==> v[i] != ':',
    ensures
        ({
            let before = asr_from_settings(asr_settings(lines)->Ok_0).map;
            let l = "ARTCC boundary:"@ + v;
            &&& asr_settings(lines.push(l)) is Ok
            &&& asr_from_settings(asr_settings(lines.push(l))->Ok_0).map == AsrMapV {
                artcc_boundary: before.artcc_boundary.push(v),
                ..before
            }
        }),
{
    reveal_strlit("DisplayTypeName");
    reveal_strlit("DisplayTypeNeedRadarContent");
    reveal_strlit("DisplayTypeGeoReferenced");
    reveal_strlit("SECTORFILE");
    reveal_strlit("SECTORTITLE");
    reveal_strlit("SHOWC");
    reveal_strlit("SHOWSB");
    reveal_strlit("ABOVE");
    reveal_strlit("BELOW");
    reveal_strlit("LEADER");
    reveal_strlit("SHOWLEADER");
    reveal_strlit("TURNLEADER");
    reveal_strlit("HISTORY_DOTS");
    reveal_strlit("SIMULATION_MODE");
    reveal_strlit("DISABLEPANNING");
    reveal_strlit("DISABLEZOOMING");
    reveal_strlit("DISPLAYROTATION");
    reveal_strlit("TAGFAMILY");
    reveal_strlit("WINDOWAREA");
    reveal_strlit("PLUGIN");
    reveal_strlit("Runways");
    reveal_strlit("Airports");
    reveal_strlit("Fixes");
    reveal_strlit("NDBs");
    reveal_strlit("VORs");
    reveal_strlit("Sids");
    reveal_strlit("Stars");
    reveal_strlit("Low airways");
    reveal_strlit("High airways");
    reveal_strlit("Free Text");
    reveal_strlit("Geo");
    reveal_strlit("Regions");
    reveal_strlit("ARTCC boundary");
    reveal_strlit("ARTCC boundary:");
    let key = "ARTCC boundary"@;
    assert(key =~= seq!['A', 'R', 'T', 'C', 'C', ' ', 'b', 'o', 'u', 'n', 'd', 'a', 'r', 'y']);
    assert("ARTCC boundary:"@ =~= key + seq![':']);
    lemma_key_after(key, v);
    let l = "ARTCC boundary:"@ + v;
    assert(l =~= key + seq![':'] + v);
    let d = AsrDataV::ArtccBoundary(v);
    assert(asr_line(l) == Ok::<Option<AsrDataV>, ()>(Some(d)));
    lemma_one_more_line(lines, l, d);
    let ds = asr_settings(lines)->Ok_0;
    assert(ds.push(d).drop_last() =~= ds);
    assert(acc_all(ds.push(d)) == acc_step(acc_all(ds), d));
    assert(acc_step(acc_all(ds), d).map == map_step(acc_all(ds).map, d));
}

/// The line `ARTCC high boundary:NAME` shows the ARTCC high boundary `NAME` on the map: after the lines of a
/// valid .asr file it adds `NAME` to the ARTCC high boundary items shown, after those already
/// there, and leaves every other kind of map element as it was.
pub proof fn lemma_artcc_high_boundary_line(lines: Seq<Seq<char>>, v: Seq<char>)
    requires
        asr_settings(lines) is Ok,
        forall|i: int| 0 <= i < v.len() ==> v[i] != ':',
    ensures
        ({
            let before = asr_from_settings(asr_settings(lines)->Ok_0).map;
            let l = "ARTCC high boundary:"@ + v;
            &&& asr_settings(lines.push(l)) is Ok
            &&& asr_from_settings(asr_settings(lines.push(l))->Ok_0).map == AsrMapV {
                artcc_high_boundary: before.artcc_high_boundary.push(v),
                ..before
            }
        }),
{
    reveal_strlit("DisplayTypeName");
    reveal_strlit("DisplayTypeNeedRadarContent");
    reveal_strlit("DisplayTypeGeoReferenced");
    reveal_strlit("SECTORFILE");
    reveal_strlit("SECTORTITLE");
    reveal_strlit("SHOWC");
    reveal_strlit("SHOWSB");
    reveal_strlit("ABOVE");
    reveal_strlit("BELOW");
    reveal_strlit("LEADER");
    reveal_strlit("SHOWLEADER");
    reveal_strlit("TURNLEADER");
    reveal_strlit("HISTORY_DOTS");
    reveal_strlit("SIMULATION_MODE");
    reveal_strlit("DISABLEPANNING");
    reveal_strlit("DISABLEZOOMING");
    reveal_strlit("DISPLAYROTATION");
    reveal_strlit("TAGFAMILY");
    reveal_strlit("WINDOWAREA");
    reveal_strlit("PLUGIN");
    reveal_strlit("Runways");
    reveal_strlit("Airports");
    reveal_strlit("Fixes");
    reveal_strlit("NDBs");
    reveal_strlit("VORs");
    reveal_strlit("Sids");
    reveal_strlit("Stars");
    reveal_strlit("Low airways");
    reveal_strlit("High airways");
    reveal_strlit("Free Text");
    reveal_strlit("Geo");
    reveal_strlit("Regions");
    reveal_strlit("ARTCC boundary");
    reveal_strlit("ARTCC high boundary");
    reveal_strlit("ARTCC high boundary:");
    let key = "ARTCC high boundary"@;
    assert(key =~= seq!['A', 'R', 'T', 'C', 'C', ' ', 'h', 'i', 'g', 'h', ' ', 'b', 'o', 'u', 'n', 'd', 'a', 'r', 'y']);
    assert("ARTCC high boundary:"@ =~= key + seq![':']);
    lemma_key_after(key, v);
    let l = "ARTCC high boundary:"@ + v;
    assert(l =~= key + seq![':'] + v);
    let d = AsrDataV::ArtccHighBoundary(v);
    assert(asr_line(l) == Ok::<Option<AsrDataV>, ()>(Some(d)));
    lemma_one_more_line(lines, l, d);
    let ds = asr_settings(lines)->Ok_0;
    assert(ds.push(d).drop_last() =~= ds);
    assert(acc_all(ds.push(d)) == acc_step(acc_all(ds), d));
    assert(acc_step(acc_all(ds), d).map == map_step(acc_all(ds).map, d));
}

/// The line `ARTCC low boundary:NAME` shows the ARTCC low boundary `NAME` on the map: after the lines of a
/// valid .asr file it adds `NAME` to the ARTCC low boundary items shown, after those already
/// there, and leaves every other kind of map element as it was.
pub proof fn lemma_artcc_low_boundary_line(lines: Seq<Seq<char>>, v: Seq<char>)
    requires
        asr_settings(lines) is Ok,
        forall|i: int| 0 <= i < v.len() ==> v[i] != ':',
    ensures
        ({
            let before = asr_from_settings(asr_settings(lines)->Ok_0).map;
            let l = "ARTCC low boundary:"@ + v;
            &&& asr_settings(lines.push(l)) is Ok
            &&& asr_from_settings(asr_settings(lines.push(l))->Ok_0).map == AsrMapV {
                artcc_low_boundary: before.artcc_low_boundary.push(v),
                ..before
            }
        }),
{
    reveal_strlit("DisplayTypeName");
    reveal_strlit("DisplayTypeNeedRadarContent");
    reveal_strlit("DisplayTypeGeoReferenced");
    reveal_strlit("SECTORFILE");
    reveal_strlit("SECTORTITLE");
    reveal_strlit("SHOWC");
    reveal_strlit("SHOWSB");
    reveal_strlit("ABOVE");
    reveal_strlit("BELOW");
    reveal_strlit("LEADER");
    reveal_strlit("SHOWLEADER");
    reveal_strlit("TURNLEADER");
    reveal_strlit("HISTORY_DOTS");
    reveal_strlit("SIMULATION_MODE");
    reveal_strlit("DISABLEPANNING");
    reveal_strlit("DISABLEZOOMING");
    reveal_strlit("DISPLAYROTATION");
    reveal_strlit("TAGFAMILY");
    reveal_strlit("WINDOWAREA");
    reveal_strlit("PLUGIN");
    reveal_strlit("Runways");
    reveal_strlit("Airports");
    reveal_strlit("Fixes");
    reveal_strlit("NDBs");
    reveal_strlit("VORs");
    reveal_strlit("Sids");
    reveal_strlit("Stars");
    reveal_strlit("Low airways");
    reveal_strlit("High airways");
    reveal_strlit("Free Text");
    reveal_strlit("Geo");
    reveal_strlit("Regions");
    reveal_strlit("ARTCC boundary");
    reveal_strlit("ARTCC high boundary");
    reveal_strlit("ARTCC low boundary");
    reveal_strlit("ARTCC low boundary:");
    let key = "ARTCC low boundary"@;
    assert(key =~= seq!['A', 'R', 'T', 'C', 'C', ' ', 'l', 'o', 'w', ' ', 'b', 'o', 'u', 'n', 'd', 'a', 'r', 'y']);
    assert("ARTCC low boundary:"@ =~= key + seq![':']);
    lemma_key_after(key, v);
    let l = "ARTCC low boundary:"@ + v;
    assert(l =~= key + seq![':'] + v);
    let d = AsrDataV::ArtccLowBoundary(v);
    assert(asr_line(l) == Ok::<Option<AsrDataV>, ()>(Some(d)));
    lemma_one_more_line(lines, l, d);
    let ds = asr_settings(lines)->Ok_0;
    assert(ds.push(d).drop_last() =~= ds);
    assert(acc_all(ds.push(d)) == acc_step(acc_all(ds), d));
    assert(acc_step(acc_all(ds), d).map == map_step(acc_all(ds).map, d));
}

/// Gathered settings hold one plugin setting per plugin and key.
proof fn lemma_acc_one_per_key(ds: Seq<AsrDataV>)
    ensures
        one_per_key(acc_all(ds).plugin_settings),
    decreases ds.len(),
{
    if ds.len() > 0 {
        lemma_acc_one_per_key(ds.drop_last());
        match ds.last() {
            AsrDataV::PluginSetting(x) => lemma_put_setting(acc_all(ds.drop_last()).plugin_settings, x),
            _ => {},
        }
    }
}

/// An .asr file holds one plugin setting per plugin and key, as a map from plugin
/// and key to value does; the last value in the file counts.
pub proof fn lemma_asr_one_setting_per_key(text: Seq<char>)
    ensures
        asr_text(text) matches Ok(a) ==> one_per_key(a.plugin_settings),
{
    if let Ok(ds) = asr_settings(lines_spec(text)) {
        lemma_acc_one_per_key(ds);
    }
}

/// Why an .asr file could not be read.
#[derive(Debug, PartialEq, Eq, Structural)]
pub enum AsrError {
    /// the line with this number (counted from one) is invalid
    Parse { line: usize },
}

/// The settings gathered so far while reading an .asr file.
struct AsrAcc {
    above: Option<Option<u32>>,
    below: Option<Option<u32>>,
    disable_panning: Option<bool>,
    disable_zooming: Option<bool>,
    display_rotation: Option<String>,
    display_type: Option<DisplayType>,
    display_type_geo_referenced: Option<bool>,
    display_type_need_radar_content: Option<bool>,
    history_dots: Option<u8>,
    leader: Option<Leader>,
    sector_file: Option<String>,
    sector_title: Option<String>,
    show_leader: Option<bool>,
    show_c: Option<bool>,
    show_standby: Option<bool>,
    simulation_mode: Option<SimulationMode>,
    tag_family: Option<String>,
    turn_leader: Option<bool>,
    window_area: Option<(String, String, String, String)>,
    plugin_settings: Vec<(String, String, String)>,
    map: AsrMap,
}

pub open spec fn opt_string_view(o: Option<String>) -> Option<Seq<char>> {
    match o {
        Some(s) => Some(s@),
        None => None,
    }
}

impl View for AsrAcc {
    type V = AsrAccV;

    closed spec fn view(&self) -> AsrAccV {
        AsrAccV {
            above: self.above,
            below: self.below,
            disable_panning: self.disable_panning,
            disable_zooming: self.disable_zooming,
            display_rotation: opt_string_view(self.display_rotation),
            display_type: self.display_type,
            display_type_geo_referenced: self.display_type_geo_referenced,
            display_type_need_radar_content: self.display_type_need_radar_content,
            history_dots: self.history_dots,
            leader: self.leader,
            sector_file: opt_string_view(self.sector_file),
            sector_title: opt_string_view(self.sector_title),
            show_leader: self.show_leader,
            show_c: self.show_c,
            show_standby: self.show_standby,
            simulation_mode: self.simulation_mode,
            tag_family: opt_string_view(self.tag_family),
            turn_leader: self.turn_leader,
            window_area: match self.window_area {
                Some(w) => Some((w.0@, w.1@, w.2@, w.3@)),
                None => None,
            },
            plugin_settings: self.plugin_settings@.map_values(
                |x: (String, String, String)| (x.0@, x.1@, x.2@),
            ),
            map: self.map@,
        }
    }
}

impl AsrAcc {
    fn new() -> (a: Self)
        ensures
            a@ == acc_init(),
    {
        let a = AsrAcc {
            above: None,
            below: None,
            disable_panning: None,
            disable_zooming: None,
            display_rotation: None,
            display_type: None,
            display_type_geo_referenced: None,
            display_type_need_radar_content: None,
            history_dots: None,
            leader: None,
            sector_file: None,
            sector_title: None,
            show_leader: None,
            show_c: None,
            show_standby: None,
            simulation_mode: None,
            tag_family: None,
            turn_leader: None,
            window_area: None,
            plugin_settings: Vec::new(),
            map: AsrMap {
                runways: Vec::new(),
                airports: Vec::new(),
                vors: Vec::new(),
                ndbs: Vec::new(),
                fixes: Vec::new(),
                low_airways: Vec::new(),
                high_airways: Vec::new(),
                sids: Vec::new(),
                stars: Vec::new(),
                free_text: Vec::new(),
                geo: Vec::new(),
                ground_network: Vec::new(),
                regions: Vec::new(),
                artcc_boundary: Vec::new(),
                artcc_low_boundary: Vec::new(),
                artcc_high_boundary: Vec::new(),
            },
        };
        proof {
            assert(a@.map =~= empty_map());
            assert(a@.plugin_settings =~= seq![]);
        }
        a
    }

    /// Gathers one more setting (see [`acc_step`]).
    #[verifier::rlimit(80)]
    fn step(&mut self, d: AsrData)
        ensures
            final(self)@ == acc_step(old(self)@, d@),
    {
        let ghost dv = d@;
        match d {
            AsrData::Above(x) => {
                if self.above.is_none() {
                    self.above = Some(x);
                }
            },
            AsrData::Below(x) => {
                if self.below.is_none() {
                    self.below = Some(x);
                }
            },
            AsrData::DisablePanning(x) => {
                if self.disable_panning.is_none() {
                    self.disable_panning = Some(x);
                }
            },
            AsrData::DisableZooming(x) => {
                if self.disable_zooming.is_none() {
                    self.disable_zooming = Some(x);
                }
            },
            AsrData::DisplayRotation(x) => {
                if self.display_rotation.is_none() {
                    self.display_rotation = Some(x);
                }
            },
            AsrData::DisplayType(x) => {
                if self.display_type.is_none() {
                    self.display_type = Some(x);
                }
            },
            AsrData::DisplayTypeGeoReferenced(x) => {
                if self.display_type_geo_referenced.is_none() {
                    self.display_type_geo_referenced = Some(x);
                }
            },
            AsrData::DisplayTypeNeedRadarContent(x) => {
                if self.display_type_need_radar_content.is_none() {
                    self.display_type_need_radar_content = Some(x);
                }
            },
            AsrData::HistoryDots(x) => {
                if self.history_dots.is_none() {
                    self.history_dots = Some(x);
                }
            },
            AsrData::Leader(x) => {
                if self.leader.is_none() {
                    self.leader = Some(x);
                }
            },
            AsrData::SectorFile(x) => {
                if self.sector_file.is_none() {
                    self.sector_file = Some(x);
                }
            },
            AsrData::SectorTitle(x) => {
                if self.sector_title.is_none() {
                    self.sector_title = Some(x);
                }
            },
            AsrData::ShowLeader(x) => {
                if self.show_leader.is_none() {
                    self.show_leader = Some(x);
                }
            },
            AsrData::ShowC(x) => {
                if self.show_c.is_none() {
                    self.show_c = Some(x);
                }
            },
            AsrData::ShowStandby(x) => {
                if self.show_standby.is_none() {
                    self.show_standby = Some(x);
                }
            },
            AsrData::SimulationMode(x) => {
                if self.simulation_mode.is_none() {
                    self.simulation_mode = Some(x);
                }
            },
            AsrData::TagFamily(x) => {
                if self.tag_family.is_none() {
                    self.tag_family = Some(x);
                }
            },
            AsrData::TurnLeader(x) => {
                if self.turn_leader.is_none() {
                    self.turn_leader = Some(x);
                }
            },
            AsrData::WindowArea(x) => {
                if self.window_area.is_none() {
                    self.window_area = Some(x);
                }
            },
            AsrData::PluginSetting(x) => {
                let ghost before = self@.plugin_settings;
                put_plugin_setting(&mut self.plugin_settings, x);
            },
            AsrData::Runway(x) => {
                let ghost before = self@.map;
                self.map.runways.push(x);
                proof {
                    assert(self@.map.runways =~= before.runways.push(dv->Runway_0));
                    assert(self@.map =~= map_step(before, dv));
                }
            },
            AsrData::Airport(x) => {
                let ghost before = self@.map;
                self.map.airports.push(x);
                proof {
                    assert(self@.map.airports =~= before.airports.push(dv->Airport_0));
                    assert(self@.map =~= map_step(before, dv));
                }
            },
            AsrData::Vor(x) => {
                let ghost before = self@.map;
                self.map.vors.push(x);
                proof {
                    assert(self@.map.vors =~= before.vors.push(dv->Vor_0));
                    assert(self@.map =~= map_step(before, dv));
                }
            },
            AsrData::Ndb(x) => {
                let ghost before = self@.map;
                self.map.ndbs.push(x);
                proof {
                    assert(self@.map.ndbs =~= before.ndbs.push(dv->Ndb_0));
                    assert(self@.map =~= map_step(before, dv));
                }
            },
            AsrData::Fix(x) => {
                let ghost before = self@.map;
                self.map.fixes.push(x);
                proof {
                    assert(self@.map.fixes =~= before.fixes.push(dv->Fix_0));
                    assert(self@.map =~= map_step(before, dv));
                }
            },
            AsrData::LowAirway(x) => {
                let ghost before = self@.map;
                self.map.low_airways.push(x);
                proof {
                    assert(self@.map.low_airways =~= before.low_airways.push(dv->LowAirway_0));
                    assert(self@.map =~= map_step(before, dv));
                }
            },
            AsrData::HighAirway(x) => {
                let ghost before = self@.map;
                self.map.high_airways.push(x);
                proof {
                    assert(self@.map.high_airways =~= before.high_airways.push(dv->HighAirway_0));
                    assert(self@.map =~= map_step(before, dv));
                }
            },
            AsrData::Sid(x) => {
                let ghost before = self@.map;
                self.map.sids.push(x);
                proof {
                    assert(self@.map.sids =~= before.sids.push(dv->Sid_0));
                    assert(self@.map =~= map_step(before, dv));
                }
            },
            AsrData::Star(x) => {
                let ghost before = self@.map;
                self.map.stars.push(x);
                proof {
                    assert(self@.map.stars =~= before.stars.push(dv->Star_0));
                    assert(self@.map =~= map_step(before, dv));
                }
            },
            AsrData::FreeText(x) => {
                let ghost before = self@.map;
                self.map.free_text.push(x);
                proof {
                    assert(self@.map.free_text =~= before.free_text.push(dv->FreeText_0));
                    assert(self@.map =~= map_step(before, dv));
                }
            },
            AsrData::Geo(x) => {
                let ghost before = self@.map;
                self.map.geo.push(x);
                proof {
                    assert(self@.map.geo =~= before.geo.push(dv->Geo_0));
                    assert(self@.map =~= map_step(before, dv));
                }
            },
            AsrData::GroundNetwork(x) => {
                let ghost before = self@.map;
                self.map.ground_network.push(x);
                proof {
                    assert(self@.map.ground_network =~= before.ground_network.push(dv->GroundNetwork_0));
                    assert(self@.map =~= map_step(before, dv));
                }
            },
            AsrData::Region(x) => {
                let ghost before = self@.map;
                self.map.regions.push(x);
                proof {
                    assert(self@.map.regions =~= before.regions.push(dv->Region_0));
                    assert(self@.map =~= map_step(before, dv));
                }
            },
            AsrData::ArtccBoundary(x) => {
                let ghost before = self@.map;
                self.map.artcc_boundary.push(x);
                proof {
                    assert(self@.map.artcc_boundary =~= before.artcc_boundary.push(dv->ArtccBoundary_0));
                    assert(self@.map =~= map_step(before, dv));
                }
            },
            AsrData::ArtccLowBoundary(x) => {
                let ghost before = self@.map;
                self.map.artcc_low_boundary.push(x);
                proof {
                    assert(self@.map.artcc_low_boundary =~= before.artcc_low_boundary.push(dv->ArtccLowBoundary_0));
                    assert(self@.map =~= map_step(before, dv));
                }
            },
            AsrData::ArtccHighBoundary(x) => {
                let ghost before = self@.map;
                self.map.artcc_high_boundary.push(x);
                proof {
                    assert(self@.map.artcc_high_boundary =~= before.artcc_high_boundary.push(dv->ArtccHighBoundary_0));
                    assert(self@.map =~= map_step(before, dv));
                }
            },
        }
    }
}

impl Asr {
    /// Reads an .asr file (see [`asr_text`]); an invalid line is reported by its
    /// number, counted from one.
    pub fn parse(content: &[u8]) -> (res: Result<Asr, AsrError>)
        ensures
            match asr_text(crate::file_text(content@)) {
                Ok(a) => res matches Ok(r) && r@ == a,
                Err(i) => res == Err::<Asr, AsrError>(AsrError::Parse { line: (i + 1) as usize }),
            },
    {
        let text = crate::read_to_string(content);
        let chars = crate::text::chars_of(text.as_str());
        let lines = crate::text::lines_of(chars.as_slice());
        let ghost ls = lines_spec(text@);
        let mut acc = AsrAcc::new();
        let ghost mut ds: Seq<AsrDataV> = seq![];
        let mut i: usize = 0;
        while i < lines.len()
            invariant
                i <= lines@.len(),
                views(lines@) == ls,
                ls == lines_spec(crate::file_text(content@)),
                asr_settings(ls.take(i as int)) == Ok::<Seq<AsrDataV>, nat>(ds),
                acc@ == acc_all(ds),
            decreases lines@.len() - i,
        {
            proof {
                assert(ls.take(i + 1).drop_last() =~= ls.take(i as int));
                assert(ls.take(i + 1).last() == lines@[i as int]@);
            }
            match parse_setting(lines[i].as_slice()) {
                Err(()) => {
                    proof {
                        assert(asr_settings(ls.take(i + 1)) == Err::<Seq<AsrDataV>, nat>(i as nat));
                        lemma_settings_error_persists(ls, (i + 1) as int);
                    }
                    return Err(AsrError::Parse { line: i + 1 });
                },
                Ok(None) => {},
                Ok(Some(d)) => {
                    proof {
                        assert(ds.push(d@).drop_last() =~= ds);
                    }
                    acc.step(d);
                    proof {
                        ds = ds.push(d@);
                    }
                },
            }
            i = i + 1;
        }
        proof {
            assert(ls.take(lines@.len() as int) =~= ls);
        }
        Ok(acc.finish())
    }
}

impl AsrAcc {
    /// The settings gathered, with defaults for those not set.
    fn finish(self) -> (r: Asr)
        ensures
            r@ == asr_finish(self@),
    {
        let a = self;
        let display_rotation = match a.display_rotation {
            Some(x) => x,
            None => "0".to_owned(),
        };
        let sector_file = match a.sector_file {
            Some(x) => x,
            None => String::new(),
        };
        let sector_title = match a.sector_title {
            Some(x) => x,
            None => String::new(),
        };
        let tag_family = match a.tag_family {
            Some(x) => x,
            None => "Matias (built in)".to_owned(),
        };
        let window_area = match a.window_area {
            Some(x) => x,
            None => (
                "46.529122".to_owned(),
                "6.678287".to_owned(),
                "50.105536".to_owned(),
                "16.599900".to_owned(),
            ),
        };
        let r = Asr {
            above: match a.above {
                Some(x) => x,
                None => None,
            },
            below: match a.below {
                Some(x) => x,
                None => None,
            },
            disable_panning: match a.disable_panning {
                Some(x) => x,
                None => false,
            },
            disable_zooming: match a.disable_zooming {
                Some(x) => x,
                None => false,
            },
            display_rotation,
            display_type: match a.display_type {
                Some(x) => x,
                None => DisplayType::Radar,
            },
            display_type_geo_referenced: match a.display_type_geo_referenced {
                Some(x) => x,
                None => true,
            },
            display_type_need_radar_content: match a.display_type_need_radar_content {
                Some(x) => x,
                None => true,
            },
            history_dots: match a.history_dots {
                Some(x) => x,
                None => 5,
            },
            leader: match a.leader {
                Some(x) => x,
                None => Leader::Minutes(3),
            },
            sector_file,
            sector_title,
            show_leader: match a.show_leader {
                Some(x) => x,
                None => false,
            },
            show_c: match a.show_c {
                Some(x) => x,
                None => true,
            },
            show_standby: match a.show_standby {
                Some(x) => x,
                None => false,
            },
            simulation_mode: match a.simulation_mode {
                Some(x) => x,
                None => SimulationMode::Radar,
            },
            tag_family,
            turn_leader: match a.turn_leader {
                Some(x) => x,
                None => false,
            },
            window_area,
            plugin_settings: a.plugin_settings,
            map: a.map,
        };
        proof {
            assert(r@.sector_file =~= or_default(self@.sector_file, seq![]));
            assert(r@.sector_title =~= or_default(self@.sector_title, seq![]));
        }
        r
    }
}

/// Once a line is invalid, the file stays invalid at that line however many lines
/// follow.
proof fn lemma_settings_error_persists(ls: Seq<Seq<char>>, k: int)
    requires
        0 <= k <= ls.len(),
        asr_settings(ls.take(k)) is Err,
    ensures
        asr_settings(ls) == asr_settings(ls.take(k)),
    decreases ls.len() - k,
{
    if k < ls.len() {
        assert(ls.take(k + 1).drop_last() =~= ls.take(k));
        lemma_settings_error_persists(ls, k + 1);
    } else {
        assert(ls.take(k) =~= ls);
    }
}

} // verus!
