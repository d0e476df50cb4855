use vstd::prelude::*;

pub mod adaptation;
pub mod agreements;
pub mod airway;
pub mod airways;
pub mod asr;
pub mod colours;
pub mod decimal;
pub mod ese;
pub mod icao;
pub mod icao_aircraft;
pub mod icao_airlines;
pub mod icao_airports;
pub mod line_styles;
pub mod isec;
pub mod locations;
pub mod lookup;
pub mod maps;
pub mod navdata_airports;
pub mod prf;
pub mod sct;
pub mod sct_items;
pub mod sct_text;
pub mod sector_index;
pub mod sectors;
pub mod settings;
pub mod squawks;
pub mod symbology;
pub mod symbols;
pub mod text;
pub mod topsky;
pub mod topsky_maps;
pub mod topsky_settings;
pub mod topsky_symbols;

verus! {

/// Decodes bytes as UTF-8 (std's `String::from_utf8`): refused unless the bytes are
/// valid UTF-8, and then the characters that they encode.
#[verifier::external_body]
fn utf8_text(contents: &[u8]) -> (res: Option<String>)
    ensures
        res is Some <==> vstd::utf8::valid_utf8(contents@),
        res matches Some(s) ==> s@ == vstd::utf8::decode_utf8(contents@),
{
    String::from_utf8(contents.to_vec()).ok()
}

/// What encoding_rs's Windows-1252 decoder makes of `bytes`.
pub uninterp spec fn windows_1252_decoded(bytes: Seq<u8>) -> Seq<char>;

/// Whether `bytes` begin with a byte order mark that encoding_rs's `decode` sniffs
/// (UTF-8, UTF-16LE or UTF-16BE); such input is decoded in that encoding instead.
pub open spec fn starts_with_bom(bytes: Seq<u8>) -> bool {
    ||| (bytes.len() >= 3 && bytes[0] == 0xEFu8 && bytes[1] == 0xBBu8 && bytes[2] == 0xBFu8)
    ||| (bytes.len() >= 2 && bytes[0] == 0xFFu8 && bytes[1] == 0xFEu8)
    ||| (bytes.len() >= 2 && bytes[0] == 0xFEu8 && bytes[1] == 0xFFu8)
}

/// The character that Windows-1252 gives a byte, as a code point: bytes below 0x80
/// and from 0xA0 on stand for themselves; the 32 from 0x80 to 0x9F follow the table
/// (five of them, left unassigned by the code page, stand for themselves too).
pub open spec fn windows_1252_code(b: u8) -> u32 {
    if b < 0x80 || b >= 0xA0 {
        b as u32
    } else {
        seq![
            0x20ACu32, 0x0081, 0x201A, 0x0192, 0x201E, 0x2026, 0x2020, 0x2021,
            0x02C6, 0x2030, 0x0160, 0x2039, 0x0152, 0x008D, 0x017D, 0x008F,
            0x0090, 0x2018, 0x2019, 0x201C, 0x201D, 0x2022, 0x2013, 0x2014,
            0x02DC, 0x2122, 0x0161, 0x203A, 0x0153, 0x009D, 0x017E, 0x0178,
        ][b - 0x80]
    }
}

/// Decodes bytes with encoding_rs's `WINDOWS_1252.decode`. Without a byte order mark,
/// Windows-1252 is a single-byte encoding: every byte becomes one character, the one
/// that encoding_rs's table gives it (see [`windows_1252_code`]). Of input with a byte
/// order mark nothing but the name is stated.
#[verifier::external_body]
fn windows_1252_text(contents: &[u8]) -> (s: String)
    ensures
        s@ == windows_1252_decoded(contents@),
        !starts_with_bom(contents@) ==> s@.len() == contents@.len(),
        !starts_with_bom(contents@) ==> forall|i: int|
            0 <= i < contents@.len() ==> s@[i] as u32 == windows_1252_code(#[trigger] contents@[i]),
{
    let (text, _, _) = encoding_rs::WINDOWS_1252.decode(contents);
    text.into_owned()
}

/// The text of a EuroScope file: its bytes read as UTF-8 where they are valid
/// UTF-8, else as Windows-1252.
pub open spec fn file_text(contents: Seq<u8>) -> Seq<char> {
    if vstd::utf8::valid_utf8(contents) {
        vstd::utf8::decode_utf8(contents)
    } else {
        windows_1252_decoded(contents)
    }
}

/// Reads a EuroScope file's bytes as text (see [`file_text`]): bytes that are not
/// UTF-8 and begin with no byte order mark give one character each, by the
/// Windows-1252 table (see [`windows_1252_code`]).
pub fn read_to_string(contents: &[u8]) -> (s: String)
    ensures
        s@ == file_text(contents@),
        !vstd::utf8::valid_utf8(contents@) && !starts_with_bom(contents@) ==> s@.len()
            == contents@.len() && forall|i: int|
            0 <= i < contents@.len() ==> s@[i] as u32 == windows_1252_code(#[trigger] contents@[i]),
{
    match utf8_text(contents) {
        Some(s) => s,
        None => windows_1252_text(contents),
    }
}

/// Hemisphere sign of a degree/minute/second coordinate part.
#[derive(Copy, Clone, Debug)]
pub enum Sign {
    Pos,
    Neg,
}

impl Sign {
    /// `1` for the northern/eastern hemisphere, `-1` for the southern/western one.
    pub fn sign(self) -> (r: i8)
        ensures
            r == (match self {
                Sign::Pos => 1i8,
                Sign::Neg => -1i8,
            }),
    {
        match self {
            Sign::Pos => 1,
            Sign::Neg => -1,
        }
    }
}

/// A coordinate part: its hemisphere sign, degrees, minutes and seconds (in
/// thousandths of a second).
pub type DegMinSec = (Sign, u16, u8, u32);

/// The value of a coordinate part in thousandths of a second of arc.
pub open spec fn deg_min_sec_value(p: DegMinSec) -> int {
    let magnitude = p.1 * 3_600_000 + p.2 * 60_000 + p.3;
    match p.0 {
        Sign::Pos => magnitude,
        Sign::Neg => -magnitude,
    }
}

impl sct::Coordinate {
    /// The coordinate of a latitude and a longitude given in degrees, minutes and
    /// seconds.
    pub fn from_deg_min_sec(lat: DegMinSec, lng: DegMinSec) -> (c: Self)
        ensures
            c.lat == deg_min_sec_value(lat),
            c.lng == deg_min_sec_value(lng),
    {
        sct::Coordinate { lat: deg_min_sec_mas(lat), lng: deg_min_sec_mas(lng) }
    }
}

fn deg_min_sec_mas(p: DegMinSec) -> (r: i64)
    ensures
        r == deg_min_sec_value(p),
{
    let magnitude = (p.1 as i64) * 3_600_000 + (p.2 as i64) * 60_000 + (p.3 as i64);
    match p.0 {
        Sign::Pos => magnitude,
        Sign::Neg => -magnitude,
    }
}

} // verus!
