//! ICAO reference data: airlines, aircraft types and their one-letter codes.
use vstd::prelude::*;
use core::str::FromStr;

use crate::text::chars_of;

verus! {

#[derive(Clone, Debug, Default, PartialEq)]
pub struct Airline {
    pub designator: String,
    pub airline: String,
    pub callsign: String,
    pub country: String,
}

/// Wake turbulence category.
#[derive(Copy, Clone, Debug, PartialEq, Eq, Structural)]
#[allow(non_camel_case_types, clippy::upper_case_acronyms)]
pub enum Wtc {
    LIGHT,
    MEDIUM,
    HEAVY,
    SUPER,
    UNKNOWN,
}

#[derive(Debug, PartialEq, Eq, Structural)]
pub struct ParseWtcError;

/// The category that a one-letter code names: `L`, `M`, `H`, `J`, or `-` for
/// unknown.
pub open spec fn wtc_from_code(s: Seq<char>) -> Option<Wtc> {
    if s.len() != 1 {
        None
    } else if s[0] == 'L' {
        Some(Wtc::LIGHT)
    } else if s[0] == 'M' {
        Some(Wtc::MEDIUM)
    } else if s[0] == 'H' {
        Some(Wtc::HEAVY)
    } else if s[0] == 'J' {
        Some(Wtc::SUPER)
    } else if s[0] == '-' {
        Some(Wtc::UNKNOWN)
    } else {
        None
    }
}

/// How a category is displayed: its code letter, and `?` when unknown.
pub open spec fn wtc_display(w: Wtc) -> Seq<char> {
    match w {
        Wtc::LIGHT => seq!['L'],
        Wtc::MEDIUM => seq!['M'],
        Wtc::HEAVY => seq!['H'],
        Wtc::SUPER => seq!['J'],
        Wtc::UNKNOWN => seq!['?'],
    }
}

impl Wtc {
    /// Reads a one-letter category code (see [`wtc_from_code`]).
    pub fn from_code(s: &str) -> (res: Result<Self, ParseWtcError>)
        ensures
            match wtc_from_code(s@) {
                Some(w) => res == Ok::<Wtc, ParseWtcError>(w),
                None => res is Err,
            },
    {
        let cs = chars_of(s);
        if cs.len() != 1 {
            return Err(ParseWtcError);
        }
        match cs[0] {
            'L' => Ok(Self::LIGHT),
            'M' => Ok(Self::MEDIUM),
            'H' => Ok(Self::HEAVY),
            'J' => Ok(Self::SUPER),
            '-' => Ok(Self::UNKNOWN),
            _ => Err(ParseWtcError),
        }
    }

    /// The displayed form of the category (see [`wtc_display`]).
    pub fn as_str(&self) -> (s: &'static str)
        ensures
            s@ == wtc_display(*self),
    {
        let s = match self {
            Self::LIGHT => "L",
            Self::MEDIUM => "M",
            Self::HEAVY => "H",
            Self::SUPER => "J",
            Self::UNKNOWN => "?",
        };
        proof {
            reveal_strlit("L");
            reveal_strlit("M");
            reveal_strlit("H");
            reveal_strlit("J");
            reveal_strlit("?");
        }
        s
    }
}

impl FromStr for Wtc {
    type Err = ParseWtcError;

    fn from_str(s: &str) -> Result<Self, Self::Err> {
        Self::from_code(s)
    }
}

/// Every known category reads back from its displayed form; an unknown one is
/// displayed as `?` but written `-`, so it does not.
pub proof fn lemma_wtc_display_reads_back(w: Wtc)
    requires
        w != Wtc::UNKNOWN,
    ensures
        wtc_from_code(wtc_display(w)) == Some(w),
{
}

/// Aircraft description: the kind of airframe.
#[derive(Copy, Clone, Debug, PartialEq, Eq, Structural)]
#[allow(clippy::upper_case_acronyms)]
pub enum AircraftType {
    LANDPLANE,
    SEAPLANE,
    AMPHIBIAN,
    GYROCOPTER,
    HELICOPTER,
    TILTROTOR,
    UNKNOWN,
}

#[derive(Debug, PartialEq, Eq, Structural)]
pub struct ParseAircraftTypeError;

/// The airframe kind that a one-letter code names: `L`, `S`, `A`, `G`, `H`, `T`,
/// or `-` for unknown.
pub open spec fn aircraft_type_from_code(s: Seq<char>) -> Option<AircraftType> {
    if s.len() != 1 {
        None
    } else if s[0] == 'L' {
        Some(AircraftType::LANDPLANE)
    } else if s[0] == 'S' {
        Some(AircraftType::SEAPLANE)
    } else if s[0] == 'A' {
        Some(AircraftType::AMPHIBIAN)
    } else if s[0] == 'G' {
        Some(AircraftType::GYROCOPTER)
    } else if s[0] == 'H' {
        Some(AircraftType::HELICOPTER)
    } else if s[0] == 'T' {
        Some(AircraftType::TILTROTOR)
    } else if s[0] == '-' {
        Some(AircraftType::UNKNOWN)
    } else {
        None
    }
}

impl AircraftType {
    /// Reads a one-letter airframe code (see [`aircraft_type_from_code`]).
    pub fn from_code(s: &str) -> (res: Result<Self, ParseAircraftTypeError>)
        ensures
            match aircraft_type_from_code(s@) {
                Some(t) => res == Ok::<AircraftType, ParseAircraftTypeError>(t),
                None => res is Err,
            },
    {
        let cs = chars_of(s);
        if cs.len() != 1 {
            return Err(ParseAircraftTypeError);
        }
        match cs[0] {
            'L' => Ok(Self::LANDPLANE),
            'S' => Ok(Self::SEAPLANE),
            'A' => Ok(Self::AMPHIBIAN),
            'G' => Ok(Self::GYROCOPTER),
            'H' => Ok(Self::HELICOPTER),
            'T' => Ok(Self::TILTROTOR),
            '-' => Ok(Self::UNKNOWN),
            _ => Err(ParseAircraftTypeError),
        }
    }
}

impl FromStr for AircraftType {
    type Err = ParseAircraftTypeError;

    fn from_str(s: &str) -> Result<Self, Self::Err> {
        Self::from_code(s)
    }
}

/// Aircraft description: the kind of engine.
#[derive(Copy, Clone, Debug, PartialEq, Eq, Structural)]
#[allow(clippy::upper_case_acronyms)]
pub enum EngineType {
    JET,
    TURBOPROP,
    PISTON,
    ELECTRIC,
    ROCKET,
    UNKNOWN,
}

#[derive(Debug, PartialEq, Eq, Structural)]
pub struct ParseEngineTypeError;

/// The engine kind that a one-letter code names: `J`, `T`, `P`, `E`, `R`, or `-`
/// for unknown.
pub open spec fn engine_type_from_code(s: Seq<char>) -> Option<EngineType> {
    if s.len() != 1 {
        None
    } else if s[0] == 'J' {
        Some(EngineType::JET)
    } else if s[0] == 'T' {
        Some(EngineType::TURBOPROP)
    } else if s[0] == 'P' {
        Some(EngineType::PISTON)
    } else if s[0] == 'E' {
        Some(EngineType::ELECTRIC)
    } else if s[0] == 'R' {
        Some(EngineType::ROCKET)
    } else if s[0] == '-' {
        Some(EngineType::UNKNOWN)
    } else {
        None
    }
}

impl EngineType {
    /// Reads a one-letter engine code (see [`engine_type_from_code`]).
    pub fn from_code(s: &str) -> (res: Result<Self, ParseEngineTypeError>)
        ensures
            match engine_type_from_code(s@) {
                Some(t) => res == Ok::<EngineType, ParseEngineTypeError>(t),
                None => res is Err,
            },
    {
        let cs = chars_of(s);
        if cs.len() != 1 {
            return Err(ParseEngineTypeError);
        }
        match cs[0] {
            'J' => Ok(Self::JET),
            'T' => Ok(Self::TURBOPROP),
            'P' => Ok(Self::PISTON),
            'E' => Ok(Self::ELECTRIC),
            'R' => Ok(Self::ROCKET),
            '-' => Ok(Self::UNKNOWN),
            _ => Err(ParseEngineTypeError),
        }
    }
}

impl FromStr for EngineType {
    type Err = ParseEngineTypeError;

    fn from_str(s: &str) -> Result<Self, Self::Err> {
        Self::from_code(s)
    }
}

#[derive(Clone, Debug, PartialEq)]
pub struct Aircraft {
    pub designator: String,
    pub wtc: Wtc,
    pub aircrafttype: AircraftType,
    pub num_engines: u8,
    pub enginetype: EngineType,
    pub manufacturer: String,
    pub name: String,
}

#[derive(Clone, Debug, PartialEq)]
pub struct Airport {
    pub designator: String,
    pub name: String,
    pub country: String,
}

/// The category of a code letter (see [`wtc_from_code`]).
pub fn wtc_of(c: char) -> (r: Option<Wtc>)
    ensures
        r == wtc_from_code(seq![c]),
{
    match c {
        'L' => Some(Wtc::LIGHT),
        'M' => Some(Wtc::MEDIUM),
        'H' => Some(Wtc::HEAVY),
        'J' => Some(Wtc::SUPER),
        '-' => Some(Wtc::UNKNOWN),
        _ => None,
    }
}

/// The aircraft type of a code letter (see [`aircraft_type_from_code`]).
pub fn aircraft_type_of(c: char) -> (r: Option<AircraftType>)
    ensures
        r == aircraft_type_from_code(seq![c]),
{
    match c {
        'L' => Some(AircraftType::LANDPLANE),
        'S' => Some(AircraftType::SEAPLANE),
        'A' => Some(AircraftType::AMPHIBIAN),
        'G' => Some(AircraftType::GYROCOPTER),
        'H' => Some(AircraftType::HELICOPTER),
        'T' => Some(AircraftType::TILTROTOR),
        '-' => Some(AircraftType::UNKNOWN),
        _ => None,
    }
}

/// The engine type of a code letter (see [`engine_type_from_code`]).
pub fn engine_type_of(c: char) -> (r: Option<EngineType>)
    ensures
        r == engine_type_from_code(seq![c]),
{
    match c {
        'J' => Some(EngineType::JET),
        'T' => Some(EngineType::TURBOPROP),
        'P' => Some(EngineType::PISTON),
        'E' => Some(EngineType::ELECTRIC),
        'R' => Some(EngineType::ROCKET),
        '-' => Some(EngineType::UNKNOWN),
        _ => None,
    }
}

} // verus!
