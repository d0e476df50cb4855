//! Colours: EuroScope's packed integer colours, `#rrggbb` strings, and the colour
//! sets that an adaptation derives from Symbology.txt.
use vstd::prelude::*;
use core::num::TryFromIntError;

use crate::lookup::{
    first_index, last_index, lemma_first_index_extend, lemma_last_index, lemma_last_index_at,
    lemma_last_index_none,
};
use crate::symbology::{Symbology, SymbologyV};
use crate::text::chars_of;

verus! {

/// An RGBA colour.
#[derive(Copy, Clone, Debug, PartialEq, Eq, Structural, Hash)]
pub struct Colour {
    pub r: u8,
    pub g: u8,
    pub b: u8,
    pub a: u8,
}

/// The opaque colour with the given channels.
pub open spec fn rgb(r: u8, g: u8, b: u8) -> Colour {
    Colour { r, g, b, a: 255 }
}

/// EuroScope packs a colour as `r + 256 * g + 65536 * b`.
pub open spec fn euroscope_value(c: Colour) -> int {
    c.r + 256 * c.g + 65536 * c.b
}

/// The colour that EuroScope's packed value `n` stands for: defined for
/// `0 <= n < 2^24`, opaque.
pub open spec fn euroscope_colour(n: int) -> Option<Colour> {
    if 0 <= n < 16777216 {
        Some(rgb((n % 256) as u8, (n / 256 % 256) as u8, (n / 65536) as u8))
    } else {
        None
    }
}

/// EuroScope writes a colour as one number, red + 256 * green + 65536 * blue: that
/// number reads back as the colour, and only numbers of that form name a colour.
pub proof fn lemma_euroscope_colour_number(r: u8, g: u8, b: u8, n: int)
    ensures
        euroscope_colour(r + 256 * g + 65536 * b) == Some(rgb(r, g, b)),
        euroscope_colour(n) is Some <==> 0 <= n < 16777216,
{
    let m = r + 256 * g + 65536 * b;
    assert(0 <= m < 16777216) by (nonlinear_arith)
        requires
            m == r + 256 * g + 65536 * b,
            0 <= r < 256,
            0 <= g < 256,
            0 <= b < 256,
    ;
    assert(m % 256 == r && m / 256 % 256 == g && m / 65536 == b) by (nonlinear_arith)
        requires
            m == r + 256 * g + 65536 * b,
            0 <= r < 256,
            0 <= g < 256,
            0 <= b < 256,
    ;
}

impl Colour {
    /// An opaque colour.
    pub fn from_rgb(r: u8, g: u8, b: u8) -> (c: Self)
        ensures
            c == rgb(r, g, b),
    {
        Colour { r, g, b, a: 255 }
    }

    /// Unpacks EuroScope's integer colour `r + 256 * g + 65536 * b`; a value
    /// outside `0..2^24` has a channel that does not fit in a byte and is refused.
    pub fn from_euroscope(colour_num: i32) -> (res: Result<Self, TryFromIntError>)
        ensures
            res is Ok <==> euroscope_colour(colour_num as int) is Some,
            res matches Ok(c) ==> Some(c) == euroscope_colour(colour_num as int),
    {
        let r = u8::try_from(colour_num % 256);
        let g = u8::try_from(colour_num / 256 % 256);
        let b = u8::try_from(colour_num / 256 / 256);
        match (r, g, b) {
            (Ok(r), Ok(g), Ok(b)) => Ok(Self::from_rgb(r, g, b)),
            (Err(e), _, _) => Err(e),
            (_, Err(e), _) => Err(e),
            (_, _, Err(e)) => Err(e),
        }
    }

    /// Packs the colour as EuroScope does; the alpha channel is dropped.
    pub fn to_euroscope(&self) -> (n: i32)
        ensures
            n as int == euroscope_value(*self),
    {
        (self.r as i32) + (self.g as i32) * 256 + (self.b as i32) * 256 * 256
    }
}

/// Unpacking a packed colour gives back its channels, made opaque.
pub proof fn lemma_euroscope_roundtrip(c: Colour)
    ensures
        euroscope_colour(euroscope_value(c)) == Some(rgb(c.r, c.g, c.b)),
{
    let n = euroscope_value(c);
    assert(n % 256 == c.r as int) by (nonlinear_arith)
        requires
            n == c.r + 256 * c.g + 65536 * c.b,
            0 <= c.r < 256,
            0 <= c.g < 256,
            0 <= c.b < 256,
    ;
    assert(n / 256 % 256 == c.g as int) by (nonlinear_arith)
        requires
            n == c.r + 256 * c.g + 65536 * c.b,
            0 <= c.r < 256,
            0 <= c.g < 256,
            0 <= c.b < 256,
    ;
    assert(n / 65536 == c.b as int) by (nonlinear_arith)
        requires
            n == c.r + 256 * c.g + 65536 * c.b,
            0 <= c.r < 256,
            0 <= c.g < 256,
            0 <= c.b < 256,
    ;
}

/// Every packed value in range packs back to itself.
pub proof fn lemma_euroscope_value_roundtrip(n: int)
    requires
        0 <= n < 16777216,
    ensures
        euroscope_colour(n) matches Some(c) && euroscope_value(c) == n,
{
    assert(n % 256 + 256 * (n / 256 % 256) + 65536 * (n / 65536) == n) by (nonlinear_arith)
        requires
            0 <= n < 16777216,
    ;
    assert(0 <= n / 256 % 256 < 256 && 0 <= n / 65536 < 256) by (nonlinear_arith)
        requires
            0 <= n < 16777216,
    ;
}

// ---------------------------------------------------------------------------
// `#rrggbb`

/// Whether `c` is an ASCII hexadecimal digit (`0-9`, `a-f`, `A-F`).
pub open spec fn is_hex_digit(c: char) -> bool {
    let u = c as u32;
    (48 <= u <= 57) || (97 <= u <= 102) || (65 <= u <= 70)
}

/// The value of hexadecimal digit `c`.
pub open spec fn hex_digit_value(c: char) -> int {
    let u = c as u32;
    if 48 <= u <= 57 {
        u - 48
    } else if 97 <= u <= 102 {
        u - 87
    } else {
        u - 55
    }
}

/// Whether `s` is `#` followed by exactly six hexadecimal digits.
pub open spec fn is_hash_rgb(s: Seq<char>) -> bool {
    &&& s.len() == 7
    &&& s[0] == '#'
    &&& forall|i: int| 1 <= i < 7 ==> is_hex_digit(#[trigger] s[i])
}

/// The byte written by the two hexadecimal digits `s[i]`, `s[i + 1]`.
pub open spec fn hex_byte_at(s: Seq<char>, i: int) -> u8 {
    (16 * hex_digit_value(s[i]) + hex_digit_value(s[i + 1])) as u8
}

/// The colour that a `#rrggbb` string names, if it is one.
pub open spec fn hash_rgb_colour(s: Seq<char>) -> Option<Colour> {
    if is_hash_rgb(s) {
        Some(rgb(hex_byte_at(s, 1), hex_byte_at(s, 3), hex_byte_at(s, 5)))
    } else {
        None
    }
}

/// Matches `v` against `^#([0-9a-fA-F]{2})([0-9a-fA-F]{2})([0-9a-fA-F]{2})$` with
/// the regex crate (`Regex::new`, then `Regex::captures`) and hands out the three
/// groups. Claimed of the regex crate: the pattern matches exactly `#` and six
/// hexadecimal digits spanning the whole text, and the groups are the three pairs.
#[verifier::external_body]
fn hash_rgb_captures(v: &str) -> (res: Option<(String, String, String)>)
    ensures
        res is Some <==> is_hash_rgb(v@),
        res matches Some((r, g, b)) ==> r@ == v@.subrange(1, 3) && g@ == v@.subrange(3, 5)
            && b@ == v@.subrange(5, 7),
{
    let re = regex::Regex::new(r"^#([0-9a-fA-F]{2})([0-9a-fA-F]{2})([0-9a-fA-F]{2})$").unwrap();
    re.captures(v).map(|c| (c[1].to_string(), c[2].to_string(), c[3].to_string()))
}

/// The value of one hexadecimal digit.
fn hex_digit(c: char) -> (v: u8)
    requires
        is_hex_digit(c),
    ensures
        v as int == hex_digit_value(c),
{
    let u = c as u32;
    if u <= 57 {
        (u - 48) as u8
    } else if u >= 97 {
        (u - 87) as u8
    } else {
        (u - 55) as u8
    }
}

/// The byte written by a two-digit hexadecimal string.
fn hex_byte(s: &String) -> (b: u8)
    requires
        s@.len() == 2,
        is_hex_digit(s@[0]),
        is_hex_digit(s@[1]),
    ensures
        b == hex_byte_at(s@, 0),
{
    let cs = chars_of(s.as_str());
    let hi = hex_digit(cs[0]);
    let lo = hex_digit(cs[1]);
    16 * hi + lo
}

impl Colour {
    /// Reads a colour written `#rrggbb` (hexadecimal digits of either case); any
    /// other text is refused.
    pub fn from_hash_rgb(v: &str) -> (res: Option<Colour>)
        ensures
            res == hash_rgb_colour(v@),
    {
        match hash_rgb_captures(v) {
            Some((r, g, b)) => {
                proof {
                    assert(r@[0] == v@[1] && r@[1] == v@[2]);
                    assert(g@[0] == v@[3] && g@[1] == v@[4]);
                    assert(b@[0] == v@[5] && b@[1] == v@[6]);
                }
                let r = hex_byte(&r);
                let g = hex_byte(&g);
                let b = hex_byte(&b);
                Some(Colour::from_rgb(r, g, b))
            },
            None => None,
        }
    }
}

// ---------------------------------------------------------------------------
// TopSky's default colours

/// A colour given by its channels.
pub type Rgb = (u8, u8, u8);

/// TopSky's default colours by name: the standard one and the COOPANS one, where the
/// scheme has the colour.
pub open spec fn topsky_default_table() -> Seq<(Seq<char>, Option<Rgb>, Option<Rgb>)> {
    seq![
        ("ACF_Via_CFL"@, Some((82u8, 190u8, 115u8)), Some((82u8, 190u8, 115u8))),
        ("Active_Map"@, Some((70u8, 90u8, 135u8)), Some((198u8, 174u8, 58u8))),
        ("Active_Map_Type_1"@, Some((1u8, 1u8, 1u8)), Some((87u8, 87u8, 164u8))),
        ("Active_Map_Type_2"@, Some((90u8, 90u8, 90u8)), Some((80u8, 162u8, 74u8))),
        ("Active_Map_Type_3"@, Some((220u8, 205u8, 121u8)), Some((179u8, 180u8, 180u8))),
        ("Active_Map_Type_4"@, Some((121u8, 66u8, 133u8)), Some((200u8, 53u8, 18u8))),
        ("Active_Map_Type_5"@, Some((51u8, 102u8, 152u8)), Some((198u8, 174u8, 58u8))),
        ("Active_Map_Type_6"@, Some((114u8, 69u8, 58u8)), Some((114u8, 69u8, 58u8))),
        ("Active_Map_Type_7"@, Some((138u8, 20u8, 12u8)), Some((138u8, 20u8, 12u8))),
        ("Active_Map_Type_8"@, Some((195u8, 186u8, 69u8)), Some((195u8, 186u8, 69u8))),
        ("Active_Map_Type_9"@, Some((220u8, 125u8, 25u8)), Some((220u8, 125u8, 25u8))),
        ("Active_Map_Type_10"@, Some((255u8, 255u8, 255u8)), Some((255u8, 255u8, 255u8))),
        ("Active_Map_Type_11"@, Some((51u8, 134u8, 49u8)), Some((51u8, 134u8, 49u8))),
        ("Active_Map_Type_12"@, Some((41u8, 102u8, 255u8)), Some((41u8, 102u8, 255u8))),
        ("Active_Map_Type_13"@, Some((100u8, 160u8, 100u8)), Some((100u8, 160u8, 100u8))),
        ("Active_Map_Type_14"@, Some((141u8, 184u8, 236u8)), Some((141u8, 184u8, 236u8))),
        ("Active_Map_Type_15"@, Some((227u8, 213u8, 29u8)), Some((227u8, 213u8, 29u8))),
        ("Active_Map_Type_16"@, Some((60u8, 60u8, 60u8)), Some((60u8, 60u8, 60u8))),
        ("Active_Map_Type_17"@, Some((155u8, 155u8, 155u8)), Some((155u8, 155u8, 155u8))),
        ("Active_Map_Type_18"@, Some((183u8, 26u8, 19u8)), Some((183u8, 26u8, 19u8))),
        ("Active_Map_Type_19"@, Some((120u8, 91u8, 65u8)), Some((120u8, 91u8, 65u8))),
        ("Active_Map_Type_20"@, Some((138u8, 69u8, 58u8)), Some((138u8, 69u8, 58u8))),
        ("Active_RD_Infill_Map"@, Some((165u8, 160u8, 160u8)), Some((90u8, 90u8, 90u8))),
        ("Active_RD_Map"@, Some((124u8, 20u8, 13u8)), Some((150u8, 41u8, 43u8))),
        ("Active_Sector"@, Some((153u8, 154u8, 149u8)), Some((52u8, 58u8, 62u8))),
        ("Active_Text_Map"@, Some((210u8, 211u8, 211u8)), Some((190u8, 190u8, 190u8))),
        ("AIW_Intrusion"@, Some((255u8, 152u8, 0u8)), Some((255u8, 152u8, 0u8))),
        ("Arm"@, Some((97u8, 97u8, 97u8)), Some((97u8, 97u8, 97u8))),
        ("Assumed"@, Some((1u8, 0u8, 1u8)), Some((220u8, 220u8, 220u8))),
        ("Background"@, Some((162u8, 163u8, 156u8)), Some((74u8, 80u8, 85u8))),
        ("Border"@, Some((51u8, 51u8, 52u8)), Some((51u8, 51u8, 52u8))),
        ("BottomShadow"@, Some((66u8, 66u8, 66u8)), Some((70u8, 70u8, 70u8))),
        ("CARD_Mark_All"@, None, Some((255u8, 125u8, 125u8))),
        ("CARD_Mark_Own"@, None, Some((255u8, 124u8, 125u8))),
        ("CARD_Min_Sep"@, Some((209u8, 207u8, 211u8)), Some((61u8, 61u8, 61u8))),
        ("CARD_Reminder"@, None, Some((170u8, 231u8, 198u8))),
        ("CARD_Symbol_Fg"@, Some((0u8, 1u8, 0u8)), Some((9u8, 10u8, 11u8))),
        ("CARD_Time_Vector"@, Some((95u8, 95u8, 95u8)), Some((171u8, 231u8, 197u8))),
        ("COL_Above_Threshold"@, None, Some((239u8, 225u8, 41u8))),
        ("COL_Under_Threshold"@, None, Some((220u8, 220u8, 221u8))),
        ("Concerned"@, Some((124u8, 1u8, 124u8)), Some((111u8, 153u8, 110u8))),
        ("Conflict_Ack"@, Some((110u8, 98u8, 98u8)), Some((135u8, 127u8, 118u8))),
        ("Conflict_Ack_FL"@, Some((110u8, 98u8, 98u8)), Some((135u8, 127u8, 117u8))),
        ("Coordination"@, Some((0u8, 0u8, 185u8)), Some((150u8, 215u8, 150u8))),
        ("CPDLC_Controller_Late"@, Some((235u8, 225u8, 108u8)), Some((170u8, 78u8, 39u8))),
        ("CPDLC_Discarded"@, Some((141u8, 141u8, 141u8)), Some((128u8, 128u8, 128u8))),
        ("CPDLC_DM_Request"@, Some((205u8, 252u8, 254u8)), Some((30u8, 250u8, 250u8))),
        ("CPDLC_Failed"@, Some((169u8, 8u8, 9u8)), Some((170u8, 78u8, 39u8))),
        ("CPDLC_Pilot_Late"@, Some((246u8, 164u8, 96u8)), Some((170u8, 78u8, 40u8))),
        ("CPDLC_Standby"@, Some((170u8, 248u8, 87u8)), Some((170u8, 78u8, 39u8))),
        ("CPDLC_UM_Clearance"@, Some((2u8, 2u8, 2u8)), Some((30u8, 251u8, 250u8))),
        ("CPDLC_Unable"@, Some((247u8, 164u8, 96u8)), Some((170u8, 77u8, 39u8))),
        ("CPDLC_Urgency"@, Some((237u8, 229u8, 108u8)), Some((226u8, 25u8, 25u8))),
        ("Datalink_Logged_On"@, Some((120u8, 120u8, 120u8)), Some((145u8, 145u8, 145u8))),
        ("Deselected"@, Some((127u8, 127u8, 127u8)), Some((95u8, 95u8, 96u8))),
        ("East_NAT_Map"@, Some((180u8, 180u8, 1u8)), Some((180u8, 180u8, 1u8))),
        ("Field_Highlight"@, Some((209u8, 207u8, 211u8)), Some((72u8, 72u8, 73u8))),
        ("Flight_Highlight"@, Some((190u8, 190u8, 185u8)), Some((36u8, 41u8, 45u8))),
        ("Flight_Leg"@, Some((205u8, 252u8, 255u8)), Some((170u8, 231u8, 197u8))),
        ("Foreground"@, Some((0u8, 1u8, 0u8)), Some((200u8, 200u8, 200u8))),
        ("FPLSEP_Tool_1"@, Some((255u8, 170u8, 46u8)), None),
        ("FPLSEP_Tool_2"@, Some((204u8, 122u8, 0u8)), None),
        ("FPLSEP_Tool_3"@, Some((255u8, 195u8, 75u8)), None),
        ("FPLSEP_Tool_4"@, Some((223u8, 143u8, 1u8)), None),
        ("FPLSEP_Tool_5"@, Some((170u8, 102u8, 0u8)), None),
        ("Freq_Indicator"@, Some((209u8, 207u8, 211u8)), Some((114u8, 136u8, 255u8))),
        ("Global_Menu_Highlight"@, Some((211u8, 211u8, 211u8)), Some((1u8, 165u8, 219u8))),
        ("Heading_Vector"@, Some((200u8, 200u8, 200u8)), Some((170u8, 232u8, 197u8))),
        ("Info_Coord"@, Some((244u8, 164u8, 96u8)), Some((1u8, 255u8, 255u8))),
        ("Information"@, Some((169u8, 249u8, 86u8)), Some((40u8, 210u8, 40u8))),
        ("Information_FL"@, Some((0u8, 200u8, 1u8)), Some((41u8, 245u8, 41u8))),
        ("Informed"@, Some((25u8, 109u8, 25u8)), Some((175u8, 125u8, 175u8))),
        ("Informed_2"@, Some((25u8, 109u8, 25u8)), Some((104u8, 163u8, 195u8))),
        ("Informed_3"@, Some((25u8, 109u8, 25u8)), Some((147u8, 124u8, 108u8))),
        ("LatLong_Info"@, None, Some((169u8, 231u8, 197u8))),
        ("Map_1"@, Some((121u8, 66u8, 133u8)), Some((80u8, 95u8, 95u8))),
        ("Map_2"@, Some((115u8, 115u8, 112u8)), Some((44u8, 44u8, 44u8))),
        ("Map_3"@, Some((213u8, 241u8, 155u8)), Some((100u8, 108u8, 111u8))),
        ("Map_4"@, Some((164u8, 164u8, 157u8)), Some((52u8, 58u8, 62u8))),
        ("Map_Auto_Label"@, Some((115u8, 115u8, 112u8)), Some((159u8, 159u8, 160u8))),
        ("Map_Auto_Symbol"@, Some((115u8, 115u8, 112u8)), Some((159u8, 159u8, 160u8))),
        ("Map_Border"@, Some((117u8, 117u8, 117u8)), Some((134u8, 134u8, 135u8))),
        ("Map_Hotspot"@, Some((72u8, 72u8, 70u8)), Some((87u8, 139u8, 200u8))),
        ("Map_Info"@, Some((217u8, 217u8, 216u8)), Some((150u8, 150u8, 150u8))),
        ("Map_Land"@, Some((133u8, 133u8, 138u8)), Some((140u8, 140u8, 0u8))),
        ("Map_Symbol"@, Some((55u8, 55u8, 55u8)), Some((110u8, 130u8, 140u8))),
        ("MQDM"@, None, Some((155u8, 140u8, 115u8))),
        ("Negotiation_In"@, None, Some((220u8, 125u8, 175u8))),
        ("Negotiation_Out"@, None, Some((220u8, 125u8, 175u8))),
        ("Normal_Load"@, Some((1u8, 50u8, 1u8)), Some((75u8, 75u8, 78u8))),
        ("Oceanic_Level_Highlight"@, Some((240u8, 225u8, 42u8)), Some((240u8, 225u8, 41u8))),
        ("Overflown"@, Some((169u8, 249u8, 86u8)), Some((82u8, 105u8, 146u8))),
        ("Overload"@, Some((255u8, 128u8, 1u8)), Some((224u8, 26u8, 25u8))),
        ("Potential"@, Some((41u8, 40u8, 216u8)), Some((41u8, 40u8, 216u8))),
        ("Potential_FL"@, Some((40u8, 41u8, 216u8)), Some((40u8, 41u8, 216u8))),
        ("Preactive_Map"@, Some((116u8, 115u8, 112u8)), Some((154u8, 138u8, 128u8))),
        ("Preactive_Text_Map"@, Some((210u8, 211u8, 212u8)), Some((155u8, 147u8, 138u8))),
        ("Predisplay_Map"@, Some((190u8, 190u8, 190u8)), Some((175u8, 130u8, 130u8))),
        ("Proposition_Accepted"@, Some((255u8, 255u8, 0u8)), Some((255u8, 255u8, 0u8))),
        ("Proposition_In"@, Some((254u8, 255u8, 255u8)), Some((220u8, 125u8, 175u8))),
        ("Proposition_Out"@, Some((254u8, 255u8, 255u8)), Some((220u8, 125u8, 175u8))),
        ("QDM"@, Some((200u8, 200u8, 200u8)), Some((215u8, 190u8, 163u8))),
        ("Radar_Win_Bg"@, Some((164u8, 164u8, 157u8)), Some((67u8, 73u8, 76u8))),
        ("Raw_Video1"@, Some((55u8, 85u8, 115u8)), Some((55u8, 85u8, 115u8))),
        ("Raw_Video2"@, Some((50u8, 80u8, 110u8)), Some((50u8, 80u8, 110u8))),
        ("Raw_Video3"@, Some((45u8, 75u8, 105u8)), Some((45u8, 75u8, 105u8))),
        ("Raw_Video4"@, Some((40u8, 70u8, 100u8)), Some((40u8, 70u8, 100u8))),
        ("Raw_Video5"@, Some((35u8, 65u8, 95u8)), Some((35u8, 65u8, 95u8))),
        ("Raw_Video6"@, Some((30u8, 60u8, 90u8)), Some((30u8, 60u8, 90u8))),
        ("Raw_Video7"@, Some((25u8, 55u8, 85u8)), Some((25u8, 55u8, 85u8))),
        ("Redundant"@, Some((156u8, 96u8, 59u8)), Some((185u8, 140u8, 89u8))),
        ("Reminder"@, None, Some((165u8, 145u8, 225u8))),
        ("Runway"@, Some((200u8, 200u8, 160u8)), Some((116u8, 200u8, 71u8))),
        ("Rwy_App_Line_Inuse"@, Some((220u8, 220u8, 220u8)), Some((82u8, 190u8, 115u8))),
        ("Rwy_App_Line_Not_Inuse"@, Some((220u8, 205u8, 121u8)), Some((135u8, 135u8, 70u8))),
        ("Rwy_Locked"@, Some((124u8, 1u8, 124u8)), Some((41u8, 210u8, 41u8))),
        ("Select"@, Some((97u8, 97u8, 97u8)), Some((151u8, 215u8, 150u8))),
        ("Selected"@, Some((210u8, 210u8, 210u8)), Some((61u8, 121u8, 148u8))),
        ("Selected_Group"@, Some((226u8, 210u8, 210u8)), None),
        ("Selected_Period"@, Some((220u8, 40u8, 70u8)), Some((255u8, 255u8, 41u8))),
        ("SEP_Tool_1"@, Some((205u8, 252u8, 255u8)), Some((153u8, 217u8, 234u8))),
        ("SEP_Tool_2"@, Some((25u8, 210u8, 230u8)), Some((255u8, 153u8, 184u8))),
        ("SEP_Tool_3"@, Some((120u8, 245u8, 250u8)), Some((255u8, 209u8, 143u8))),
        ("SEP_Tool_4"@, Some((185u8, 240u8, 244u8)), Some((197u8, 64u8, 212u8))),
        ("SEP_Tool_5"@, Some((25u8, 180u8, 210u8)), Some((140u8, 140u8, 255u8))),
        ("SEP_Tool_6"@, None, Some((95u8, 170u8, 140u8))),
        ("SEP_Tool_7"@, None, Some((185u8, 130u8, 85u8))),
        ("SEP_Vert"@, None, Some((160u8, 150u8, 135u8))),
        ("Sid_Star_Allocation"@, Some((124u8, 1u8, 124u8)), Some((15u8, 185u8, 15u8))),
        ("SMW_Highlight"@, Some((255u8, 255u8, 255u8)), Some((253u8, 255u8, 255u8))),
        ("SMW_Level_Band"@, Some((169u8, 249u8, 86u8)), Some((24u8, 209u8, 114u8))),
        ("SMW_Overflight"@, Some((236u8, 228u8, 108u8)), Some((254u8, 152u8, 1u8))),
        ("SMW_Overlap"@, Some((168u8, 7u8, 8u8)), Some((224u8, 25u8, 25u8))),
        ("SMW_Overlap_Box"@, Some((0u8, 1u8, 0u8)), Some((207u8, 207u8, 207u8))),
        ("SMW_Overshoot"@, Some((236u8, 228u8, 108u8)), Some((239u8, 224u8, 40u8))),
        ("Standard_Line_RDF"@, Some((91u8, 134u8, 76u8)), Some((91u8, 134u8, 76u8))),
        ("Standard_RDF"@, Some((11u8, 12u8, 19u8)), Some((11u8, 12u8, 19u8))),
        ("Suite_Highlight"@, Some((236u8, 228u8, 108u8)), Some((0u8, 220u8, 255u8))),
        ("System_Calculated_TOC"@, None, Some((170u8, 230u8, 197u8))),
        ("System_Calculated_TOD"@, None, Some((170u8, 231u8, 197u8))),
        ("Temp_Track_Highlight"@, Some((0u8, 164u8, 220u8)), Some((0u8, 164u8, 220u8))),
        ("Text_Notes"@, Some((0u8, 0u8, 0u8)), Some((255u8, 0u8, 0u8))),
        ("TopShadow"@, Some((130u8, 130u8, 130u8)), Some((155u8, 158u8, 159u8))),
        ("Track_Default"@, Some((188u8, 188u8, 188u8)), Some((210u8, 210u8, 210u8))),
        ("Track_Highlight"@, Some((255u8, 255u8, 255u8)), Some((0u8, 165u8, 219u8))),
        ("Trough"@, Some((97u8, 97u8, 97u8)), Some((97u8, 99u8, 97u8))),
        ("TSA_Active"@, Some((220u8, 205u8, 120u8)), Some((93u8, 138u8, 195u8))),
        ("TSA_Border_Highlight"@, Some((255u8, 254u8, 255u8)), Some((255u8, 254u8, 255u8))),
        ("TSA_Filter"@, Some((255u8, 253u8, 255u8)), None),
        ("TSA_Preactive"@, Some((80u8, 80u8, 80u8)), Some((132u8, 142u8, 139u8))),
        ("Unconcerned"@, Some((110u8, 98u8, 98u8)), Some((135u8, 128u8, 118u8))),
        ("Unknown"@, Some((237u8, 228u8, 108u8)), Some((239u8, 224u8, 42u8))),
        ("Urgency"@, Some((236u8, 32u8, 0u8)), Some((225u8, 25u8, 26u8))),
        ("Urgency_FL"@, Some((166u8, 11u8, 1u8)), Some((225u8, 25u8, 25u8))),
        ("VAW_Profile"@, Some((130u8, 204u8, 240u8)), Some((152u8, 202u8, 172u8))),
        ("VAW_Sector_Limits"@, Some((190u8, 190u8, 185u8)), Some((145u8, 95u8, 30u8))),
        ("VAW_Track_Position"@, Some((190u8, 190u8, 185u8)), Some((219u8, 219u8, 219u8))),
        ("VFR"@, Some((110u8, 1u8, 10u8)), Some((110u8, 1u8, 10u8))),
        ("Warning"@, Some((236u8, 228u8, 108u8)), Some((240u8, 225u8, 41u8))),
        ("Warning_FL"@, Some((235u8, 228u8, 108u8)), Some((240u8, 226u8, 41u8))),
        ("Weather_Map"@, Some((99u8, 99u8, 98u8)), Some((0u8, 0u8, 86u8))),
        ("West_NAT_Map"@, Some((40u8, 140u8, 255u8)), Some((40u8, 140u8, 255u8))),
        ("WM_Active_Fg"@, Some((230u8, 230u8, 231u8)), Some((255u8, 254u8, 254u8))),
        ("WM_Bg"@, Some((147u8, 147u8, 145u8)), Some((100u8, 100u8, 105u8))),
        ("WM_Border"@, Some((50u8, 50u8, 50u8)), Some((88u8, 95u8, 99u8))),
        ("WM_Fg"@, Some((1u8, 1u8, 1u8)), Some((180u8, 184u8, 181u8))),
        ("WM_Frame"@, Some((1u8, 1u8, 0u8)), Some((88u8, 95u8, 99u8)))
    ]
}

/// TopSky's default colour table (see [`topsky_default_table`]).
fn topsky_defaults() -> (t: Vec<(&'static str, Option<Rgb>, Option<Rgb>)>)
    ensures
        t@.map_values(|e: (&'static str, Option<Rgb>, Option<Rgb>)| (e.0@, e.1, e.2))
            == topsky_default_table(),
{
    let t = vec![
        ("ACF_Via_CFL", Some((82, 190, 115)), Some((82, 190, 115))),
        ("Active_Map", Some((70, 90, 135)), Some((198, 174, 58))),
        ("Active_Map_Type_1", Some((1, 1, 1)), Some((87, 87, 164))),
        ("Active_Map_Type_2", Some((90, 90, 90)), Some((80, 162, 74))),
        ("Active_Map_Type_3", Some((220, 205, 121)), Some((179, 180, 180))),
        ("Active_Map_Type_4", Some((121, 66, 133)), Some((200, 53, 18))),
        ("Active_Map_Type_5", Some((51, 102, 152)), Some((198, 174, 58))),
        ("Active_Map_Type_6", Some((114, 69, 58)), Some((114, 69, 58))),
        ("Active_Map_Type_7", Some((138, 20, 12)), Some((138, 20, 12))),
        ("Active_Map_Type_8", Some((195, 186, 69)), Some((195, 186, 69))),
        ("Active_Map_Type_9", Some((220, 125, 25)), Some((220, 125, 25))),
        ("Active_Map_Type_10", Some((255, 255, 255)), Some((255, 255, 255))),
        ("Active_Map_Type_11", Some((51, 134, 49)), Some((51, 134, 49))),
        ("Active_Map_Type_12", Some((41, 102, 255)), Some((41, 102, 255))),
        ("Active_Map_Type_13", Some((100, 160, 100)), Some((100, 160, 100))),
        ("Active_Map_Type_14", Some((141, 184, 236)), Some((141, 184, 236))),
        ("Active_Map_Type_15", Some((227, 213, 29)), Some((227, 213, 29))),
        ("Active_Map_Type_16", Some((60, 60, 60)), Some((60, 60, 60))),
        ("Active_Map_Type_17", Some((155, 155, 155)), Some((155, 155, 155))),
        ("Active_Map_Type_18", Some((183, 26, 19)), Some((183, 26, 19))),
        ("Active_Map_Type_19", Some((120, 91, 65)), Some((120, 91, 65))),
        ("Active_Map_Type_20", Some((138, 69, 58)), Some((138, 69, 58))),
        ("Active_RD_Infill_Map", Some((165, 160, 160)), Some((90, 90, 90))),
        ("Active_RD_Map", Some((124, 20, 13)), Some((150, 41, 43))),
        ("Active_Sector", Some((153, 154, 149)), Some((52, 58, 62))),
        ("Active_Text_Map", Some((210, 211, 211)), Some((190, 190, 190))),
        ("AIW_Intrusion", Some((255, 152, 0)), Some((255, 152, 0))),
        ("Arm", Some((97, 97, 97)), Some((97, 97, 97))),
        ("Assumed", Some((1, 0, 1)), Some((220, 220, 220))),
        ("Background", Some((162, 163, 156)), Some((74, 80, 85))),
        ("Border", Some((51, 51, 52)), Some((51, 51, 52))),
        ("BottomShadow", Some((66, 66, 66)), Some((70, 70, 70))),
        ("CARD_Mark_All", None, Some((255, 125, 125))),
        ("CARD_Mark_Own", None, Some((255, 124, 125))),
        ("CARD_Min_Sep", Some((209, 207, 211)), Some((61, 61, 61))),
        ("CARD_Reminder", None, Some((170, 231, 198))),
        ("CARD_Symbol_Fg", Some((0, 1, 0)), Some((9, 10, 11))),
        ("CARD_Time_Vector", Some((95, 95, 95)), Some((171, 231, 197))),
        ("COL_Above_Threshold", None, Some((239, 225, 41))),
        ("COL_Under_Threshold", None, Some((220, 220, 221))),
        ("Concerned", Some((124, 1, 124)), Some((111, 153, 110))),
        ("Conflict_Ack", Some((110, 98, 98)), Some((135, 127, 118))),
        ("Conflict_Ack_FL", Some((110, 98, 98)), Some((135, 127, 117))),
        ("Coordination", Some((0, 0, 185)), Some((150, 215, 150))),
        ("CPDLC_Controller_Late", Some((235, 225, 108)), Some((170, 78, 39))),
        ("CPDLC_Discarded", Some((141, 141, 141)), Some((128, 128, 128))),
        ("CPDLC_DM_Request", Some((205, 252, 254)), Some((30, 250, 250))),
        ("CPDLC_Failed", Some((169, 8, 9)), Some((170, 78, 39))),
        ("CPDLC_Pilot_Late", Some((246, 164, 96)), Some((170, 78, 40))),
        ("CPDLC_Standby", Some((170, 248, 87)), Some((170, 78, 39))),
        ("CPDLC_UM_Clearance", Some((2, 2, 2)), Some((30, 251, 250))),
        ("CPDLC_Unable", Some((247, 164, 96)), Some((170, 77, 39))),
        ("CPDLC_Urgency", Some((237, 229, 108)), Some((226, 25, 25))),
        ("Datalink_Logged_On", Some((120, 120, 120)), Some((145, 145, 145))),
        ("Deselected", Some((127, 127, 127)), Some((95, 95, 96))),
        ("East_NAT_Map", Some((180, 180, 1)), Some((180, 180, 1))),
        ("Field_Highlight", Some((209, 207, 211)), Some((72, 72, 73))),
        ("Flight_Highlight", Some((190, 190, 185)), Some((36, 41, 45))),
        ("Flight_Leg", Some((205, 252, 255)), Some((170, 231, 197))),
        ("Foreground", Some((0, 1, 0)), Some((200, 200, 200))),
        ("FPLSEP_Tool_1", Some((255, 170, 46)), None),
        ("FPLSEP_Tool_2", Some((204, 122, 0)), None),
        ("FPLSEP_Tool_3", Some((255, 195, 75)), None),
        ("FPLSEP_Tool_4", Some((223, 143, 1)), None),
        ("FPLSEP_Tool_5", Some((170, 102, 0)), None),
        ("Freq_Indicator", Some((209, 207, 211)), Some((114, 136, 255))),
        ("Global_Menu_Highlight", Some((211, 211, 211)), Some((1, 165, 219))),
        ("Heading_Vector", Some((200, 200, 200)), Some((170, 232, 197))),
        ("Info_Coord", Some((244, 164, 96)), Some((1, 255, 255))),
        ("Information", Some((169, 249, 86)), Some((40, 210, 40))),
        ("Information_FL", Some((0, 200, 1)), Some((41, 245, 41))),
        ("Informed", Some((25, 109, 25)), Some((175, 125, 175))),
        ("Informed_2", Some((25, 109, 25)), Some((104, 163, 195))),
        ("Informed_3", Some((25, 109, 25)), Some((147, 124, 108))),
        ("LatLong_Info", None, Some((169, 231, 197))),
        ("Map_1", Some((121, 66, 133)), Some((80, 95, 95))),
        ("Map_2", Some((115, 115, 112)), Some((44, 44, 44))),
        ("Map_3", Some((213, 241, 155)), Some((100, 108, 111))),
        ("Map_4", Some((164, 164, 157)), Some((52, 58, 62))),
        ("Map_Auto_Label", Some((115, 115, 112)), Some((159, 159, 160))),
        ("Map_Auto_Symbol", Some((115, 115, 112)), Some((159, 159, 160))),
        ("Map_Border", Some((117, 117, 117)), Some((134, 134, 135))),
        ("Map_Hotspot", Some((72, 72, 70)), Some((87, 139, 200))),
        ("Map_Info", Some((217, 217, 216)), Some((150, 150, 150))),
        ("Map_Land", Some((133, 133, 138)), Some((140, 140, 0))),
        ("Map_Symbol", Some((55, 55, 55)), Some((110, 130, 140))),
        ("MQDM", None, Some((155, 140, 115))),
        ("Negotiation_In", None, Some((220, 125, 175))),
        ("Negotiation_Out", None, Some((220, 125, 175))),
        ("Normal_Load", Some((1, 50, 1)), Some((75, 75, 78))),
        ("Oceanic_Level_Highlight", Some((240, 225, 42)), Some((240, 225, 41))),
        ("Overflown", Some((169, 249, 86)), Some((82, 105, 146))),
        ("Overload", Some((255, 128, 1)), Some((224, 26, 25))),
        ("Potential", Some((41, 40, 216)), Some((41, 40, 216))),
        ("Potential_FL", Some((40, 41, 216)), Some((40, 41, 216))),
        ("Preactive_Map", Some((116, 115, 112)), Some((154, 138, 128))),
        ("Preactive_Text_Map", Some((210, 211, 212)), Some((155, 147, 138))),
        ("Predisplay_Map", Some((190, 190, 190)), Some((175, 130, 130))),
        ("Proposition_Accepted", Some((255, 255, 0)), Some((255, 255, 0))),
        ("Proposition_In", Some((254, 255, 255)), Some((220, 125, 175))),
        ("Proposition_Out", Some((254, 255, 255)), Some((220, 125, 175))),
        ("QDM", Some((200, 200, 200)), Some((215, 190, 163))),
        ("Radar_Win_Bg", Some((164, 164, 157)), Some((67, 73, 76))),
        ("Raw_Video1", Some((55, 85, 115)), Some((55, 85, 115))),
        ("Raw_Video2", Some((50, 80, 110)), Some((50, 80, 110))),
        ("Raw_Video3", Some((45, 75, 105)), Some((45, 75, 105))),
        ("Raw_Video4", Some((40, 70, 100)), Some((40, 70, 100))),
        ("Raw_Video5", Some((35, 65, 95)), Some((35, 65, 95))),
        ("Raw_Video6", Some((30, 60, 90)), Some((30, 60, 90))),
        ("Raw_Video7", Some((25, 55, 85)), Some((25, 55, 85))),
        ("Redundant", Some((156, 96, 59)), Some((185, 140, 89))),
        ("Reminder", None, Some((165, 145, 225))),
        ("Runway", Some((200, 200, 160)), Some((116, 200, 71))),
        ("Rwy_App_Line_Inuse", Some((220, 220, 220)), Some((82, 190, 115))),
        ("Rwy_App_Line_Not_Inuse", Some((220, 205, 121)), Some((135, 135, 70))),
        ("Rwy_Locked", Some((124, 1, 124)), Some((41, 210, 41))),
        ("Select", Some((97, 97, 97)), Some((151, 215, 150))),
        ("Selected", Some((210, 210, 210)), Some((61, 121, 148))),
        ("Selected_Group", Some((226, 210, 210)), None),
        ("Selected_Period", Some((220, 40, 70)), Some((255, 255, 41))),
        ("SEP_Tool_1", Some((205, 252, 255)), Some((153, 217, 234))),
        ("SEP_Tool_2", Some((25, 210, 230)), Some((255, 153, 184))),
        ("SEP_Tool_3", Some((120, 245, 250)), Some((255, 209, 143))),
        ("SEP_Tool_4", Some((185, 240, 244)), Some((197, 64, 212))),
        ("SEP_Tool_5", Some((25, 180, 210)), Some((140, 140, 255))),
        ("SEP_Tool_6", None, Some((95, 170, 140))),
        ("SEP_Tool_7", None, Some((185, 130, 85))),
        ("SEP_Vert", None, Some((160, 150, 135))),
        ("Sid_Star_Allocation", Some((124, 1, 124)), Some((15, 185, 15))),
        ("SMW_Highlight", Some((255, 255, 255)), Some((253, 255, 255))),
        ("SMW_Level_Band", Some((169, 249, 86)), Some((24, 209, 114))),
        ("SMW_Overflight", Some((236, 228, 108)), Some((254, 152, 1))),
        ("SMW_Overlap", Some((168, 7, 8)), Some((224, 25, 25))),
        ("SMW_Overlap_Box", Some((0, 1, 0)), Some((207, 207, 207))),
        ("SMW_Overshoot", Some((236, 228, 108)), Some((239, 224, 40))),
        ("Standard_Line_RDF", Some((91, 134, 76)), Some((91, 134, 76))),
        ("Standard_RDF", Some((11, 12, 19)), Some((11, 12, 19))),
        ("Suite_Highlight", Some((236, 228, 108)), Some((0, 220, 255))),
        ("System_Calculated_TOC", None, Some((170, 230, 197))),
        ("System_Calculated_TOD", None, Some((170, 231, 197))),
        ("Temp_Track_Highlight", Some((0, 164, 220)), Some((0, 164, 220))),
        ("Text_Notes", Some((0, 0, 0)), Some((255, 0, 0))),
        ("TopShadow", Some((130, 130, 130)), Some((155, 158, 159))),
        ("Track_Default", Some((188, 188, 188)), Some((210, 210, 210))),
        ("Track_Highlight", Some((255, 255, 255)), Some((0, 165, 219))),
        ("Trough", Some((97, 97, 97)), Some((97, 99, 97))),
        ("TSA_Active", Some((220, 205, 120)), Some((93, 138, 195))),
        ("TSA_Border_Highlight", Some((255, 254, 255)), Some((255, 254, 255))),
        ("TSA_Filter", Some((255, 253, 255)), None),
        ("TSA_Preactive", Some((80, 80, 80)), Some((132, 142, 139))),
        ("Unconcerned", Some((110, 98, 98)), Some((135, 128, 118))),
        ("Unknown", Some((237, 228, 108)), Some((239, 224, 42))),
        ("Urgency", Some((236, 32, 0)), Some((225, 25, 26))),
        ("Urgency_FL", Some((166, 11, 1)), Some((225, 25, 25))),
        ("VAW_Profile", Some((130, 204, 240)), Some((152, 202, 172))),
        ("VAW_Sector_Limits", Some((190, 190, 185)), Some((145, 95, 30))),
        ("VAW_Track_Position", Some((190, 190, 185)), Some((219, 219, 219))),
        ("VFR", Some((110, 1, 10)), Some((110, 1, 10))),
        ("Warning", Some((236, 228, 108)), Some((240, 225, 41))),
        ("Warning_FL", Some((235, 228, 108)), Some((240, 226, 41))),
        ("Weather_Map", Some((99, 99, 98)), Some((0, 0, 86))),
        ("West_NAT_Map", Some((40, 140, 255)), Some((40, 140, 255))),
        ("WM_Active_Fg", Some((230, 230, 231)), Some((255, 254, 254))),
        ("WM_Bg", Some((147, 147, 145)), Some((100, 100, 105))),
        ("WM_Border", Some((50, 50, 50)), Some((88, 95, 99))),
        ("WM_Fg", Some((1, 1, 1)), Some((180, 184, 181))),
        ("WM_Frame", Some((1, 1, 0)), Some((88, 95, 99)))
    ];
    proof {
        assert(t@.map_values(|e: (&'static str, Option<Rgb>, Option<Rgb>)| (e.0@, e.1, e.2))
            =~= topsky_default_table());
    }
    t
}

/// Entries of the default table named `name`.
pub open spec fn default_named(name: Seq<char>) -> spec_fn(int) -> bool {
    |j: int| topsky_default_table()[j].0 == name
}

/// TopSky's default colour named `name` in the standard or the COOPANS scheme, where
/// the table has one.
pub open spec fn topsky_default(coopans: bool, name: Seq<char>) -> Option<Colour> {
    match first_index(topsky_default_table().len() as int, default_named(name)) {
        None => None,
        Some(j) => {
            let e = topsky_default_table()[j];
            match if coopans {
                e.2
            } else {
                e.1
            } {
                Some(c) => Some(rgb(c.0, c.1, c.2)),
                None => None,
            }
        },
    }
}

impl Colour {
    /// TopSky's default colour of a name (see [`topsky_default`]).
    pub fn from_topsky_default(coopans: bool, key: &str) -> (r: Option<Colour>)
        ensures
            r == topsky_default(coopans, key@),
    {
        let table = topsky_defaults();
        let ghost tv = table@.map_values(
            |e: (&'static str, Option<Rgb>, Option<Rgb>)| (e.0@, e.1, e.2),
        );
        let ghost p = default_named(key@);
        let mut j: usize = 0;
        while j < table.len()
            invariant
                j <= table@.len(),
                tv == table@.map_values(
                    |e: (&'static str, Option<Rgb>, Option<Rgb>)| (e.0@, e.1, e.2),
                ),
                tv == topsky_default_table(),
                p == default_named(key@),
                first_index(j as int, p) is None,
            decreases table@.len() - j,
        {
            let (name, standard, coopans_colour) = table[j];
            proof {
                assert(tv[j as int] == (name@, standard, coopans_colour));
            }
            if crate::text::str_eq(name, key) {
                proof {
                    assert(p(j as int));
                    lemma_first_index_extend(j + 1, tv.len() as int, p);
                }
                let chosen = if coopans {
                    coopans_colour
                } else {
                    standard
                };
                return match chosen {
                    Some((r, g, b)) => Some(Colour::from_rgb(r, g, b)),
                    None => None,
                };
            }
            proof {
                assert(!p(j as int));
            }
            j = j + 1;
        }
        None
    }
}

// ---------------------------------------------------------------------------
// Colours by name, and the colour sets

/// Entries of a list of named colours that bear `name`.
pub open spec fn colour_named(colours: Seq<(Seq<char>, Colour)>, name: Seq<char>) -> spec_fn(
    int,
) -> bool {
    |j: int| colours[j].0 == name
}

/// The colour last given for `name` in a list of named colours.
pub open spec fn named_colour(colours: Seq<(Seq<char>, Colour)>, name: Seq<char>) -> Option<Colour> {
    match last_index(colours.len() as int, colour_named(colours, name)) {
        Some(j) => Some(colours[j].1),
        None => None,
    }
}

pub open spec fn colour_views(colours: Seq<(String, Colour)>) -> Seq<(Seq<char>, Colour)> {
    colours.map_values(|e: (String, Colour)| (e.0@, e.1))
}

/// Looks a colour up by name (the last one given for it).
pub fn find_named_colour(colours: &Vec<(String, Colour)>, name: &str) -> (r: Option<Colour>)
    ensures
        r == named_colour(colour_views(colours@), name@),
{
    let ghost cv = colour_views(colours@);
    let ghost p = colour_named(cv, name@);
    let mut j = colours.len();
    while j > 0
        invariant
            j <= colours@.len(),
            cv == colour_views(colours@),
            p == colour_named(cv, name@),
            forall|k: int| j <= k < colours@.len() ==> !#[trigger] p(k),
        decreases j,
    {
        j = j - 1;
        proof {
            assert(cv[j as int] == (colours@[j as int].0@, colours@[j as int].1));
        }
        if crate::text::str_eq(colours[j].0.as_str(), name) {
            proof {
                assert(p(j as int));
                lemma_last_index_at(colours@.len() as int, p, j as int);
            }
            return Some(colours[j].1);
        }
        proof {
            assert(!p(j as int));
        }
    }
    proof {
        lemma_last_index(colours@.len() as int, p);
        if last_index(colours@.len() as int, p) is Some {
            let k = last_index(colours@.len() as int, p).unwrap();
            assert(p(k));
        }
    }
    None
}

/// The colour of a Symbology.txt item, or `default` when the item is not given.
pub open spec fn symbology_colour(s: SymbologyV, folder: Seq<char>, name: Seq<char>, default: Colour) -> Colour {
    match s.item(folder, name) {
        Some(i) => i.colour,
        None => default,
    }
}

/// A TopSky colour: the one that the TopSky files give, else TopSky's default for
/// the scheme, else `default`.
pub open spec fn topsky_colour(
    colours: Seq<(Seq<char>, Colour)>,
    coopans: bool,
    name: Seq<char>,
    default: Colour,
) -> Colour {
    match named_colour(colours, name) {
        Some(c) => c,
        None => match topsky_default(coopans, name) {
            Some(c) => c,
            None => default,
        },
    }
}

impl Colour {
    /// The colour of a Symbology.txt item (see [`symbology_colour`]).
    pub fn from_symbology(symbology: &Symbology, folder: &str, name: &str, default: Colour) -> (r:
        Colour)
        ensures
            r == symbology_colour(symbology@, folder@, name@, default),
    {
        match symbology.item(folder, name) {
            Some(item) => item.colour,
            None => default,
        }
    }

    /// A TopSky colour (see [`topsky_colour`]).
    pub fn from_topsky(colours: &Vec<(String, Colour)>, coopans: bool, name: &str, default: Colour) -> (r:
        Colour)
        ensures
            r == topsky_colour(colour_views(colours@), coopans, name@, default),
    {
        match find_named_colour(colours, name) {
            Some(c) => c,
            None => match Colour::from_topsky_default(coopans, name) {
                Some(c) => c,
                None => default,
            },
        }
    }
}

/// Colours of the sector file elements on the radar map.
#[derive(Clone, Copy, Debug, PartialEq, Eq, Structural)]
pub struct MapColours {
    pub fix_symbol: Colour,
    pub fix_name: Colour,
    pub airport_symbol: Colour,
    pub airport_name: Colour,
    pub ndb_symbol: Colour,
    pub ndb_name: Colour,
    pub ndb_frequency: Colour,
    pub vor_symbol: Colour,
    pub vor_name: Colour,
    pub vor_frequency: Colour,
    pub low_airway_line: Colour,
    pub low_airway_name: Colour,
    pub high_airway_line: Colour,
    pub high_airway_name: Colour,
    pub sid: Colour,
    pub star: Colour,
    pub artcc_boundary: Colour,
    pub artcc_low_boundary: Colour,
    pub artcc_high_boundary: Colour,
    pub geo: Colour,
    pub runway_centreline: Colour,
    pub runway_extended_centreline: Colour,
    pub runway_name: Colour,
    pub free_text: Colour,
}

/// The map colours that Symbology.txt gives, each with its default.
pub open spec fn map_colours_from(s: SymbologyV) -> MapColours {
    MapColours {
        fix_symbol: symbology_colour(s, "Fixes"@, "symbol"@, rgb(0, 0, 0)),
        fix_name: symbology_colour(s, "Fixes"@, "name"@, rgb(0, 0, 0)),
        airport_symbol: symbology_colour(s, "Airports"@, "symbol"@, rgb(0, 0, 0)),
        airport_name: symbology_colour(s, "Airports"@, "name"@, rgb(0, 0, 0)),
        ndb_symbol: symbology_colour(s, "NDBs"@, "symbol"@, rgb(0, 0, 0)),
        ndb_name: symbology_colour(s, "NDBs"@, "name"@, rgb(0, 0, 0)),
        ndb_frequency: symbology_colour(s, "NDBs"@, "frequency"@, rgb(0, 0, 0)),
        vor_symbol: symbology_colour(s, "VORs"@, "symbol"@, rgb(0, 0, 0)),
        vor_name: symbology_colour(s, "VORs"@, "name"@, rgb(0, 0, 0)),
        vor_frequency: symbology_colour(s, "VORs"@, "frequency"@, rgb(0, 0, 0)),
        low_airway_line: symbology_colour(s, "Low airways"@, "line"@, rgb(0, 0, 0)),
        low_airway_name: symbology_colour(s, "Low airways"@, "name"@, rgb(0, 0, 0)),
        high_airway_line: symbology_colour(s, "High airways"@, "line"@, rgb(0, 0, 0)),
        high_airway_name: symbology_colour(s, "High airways"@, "line"@, rgb(0, 0, 0)),
        sid: symbology_colour(s, "Sids"@, "line"@, rgb(0, 0, 0)),
        star: symbology_colour(s, "Stars"@, "line"@, rgb(0, 0, 0)),
        artcc_boundary: symbology_colour(s, "ARTCC boundary"@, "line"@, rgb(0, 0, 0)),
        artcc_low_boundary: symbology_colour(s, "ARTCC low boundary"@, "line"@, rgb(0, 0, 0)),
        artcc_high_boundary: symbology_colour(s, "ARTCC high boundary"@, "line"@, rgb(0, 0, 0)),
        geo: symbology_colour(s, "Geo"@, "line"@, rgb(0, 0, 0)),
        runway_centreline: symbology_colour(s, "Runways"@, "centerline"@, rgb(0, 0, 0)),
        runway_extended_centreline: symbology_colour(s, "Runways"@, "extended centerline"@, rgb(0, 0, 0)),
        runway_name: symbology_colour(s, "Runways"@, "name"@, rgb(0, 0, 0)),
        free_text: symbology_colour(s, "Other"@, "freetext"@, rgb(0, 0, 0)),
    }
}

/// Each map colour is the colour of its own Symbology item, the last one with its
/// folder and name (`Stars`/`line` for the STARs, `Sids`/`line` for the SIDs, and so
/// on), black where there is none: appending an item to a Symbology sets exactly the
/// map colours whose folder and name it has, and leaves the others as they were.
pub proof fn lemma_map_colour_items(s: SymbologyV, i: crate::symbology::ItemV)
    ensures
        ({
            let before = map_colours_from(s);
            let after = map_colours_from(SymbologyV { items: s.items.push(i), ..s });
            let empty = map_colours_from(SymbologyV { items: seq![], ..s });
            &&& after.fix_symbol == (if i.folder == "Fixes"@ && i.name == "symbol"@ { i.colour } else { before.fix_symbol })
            &&& after.fix_name == (if i.folder == "Fixes"@ && i.name == "name"@ { i.colour } else { before.fix_name })
            &&& after.airport_symbol == (if i.folder == "Airports"@ && i.name == "symbol"@ { i.colour } else { before.airport_symbol })
            &&& after.airport_name == (if i.folder == "Airports"@ && i.name == "name"@ { i.colour } else { before.airport_name })
            &&& after.ndb_symbol == (if i.folder == "NDBs"@ && i.name == "symbol"@ { i.colour } else { before.ndb_symbol })
            &&& after.ndb_name == (if i.folder == "NDBs"@ && i.name == "name"@ { i.colour } else { before.ndb_name })
            &&& after.ndb_frequency == (if i.folder == "NDBs"@ && i.name == "frequency"@ { i.colour } else { before.ndb_frequency })
            &&& after.vor_symbol == (if i.folder == "VORs"@ && i.name == "symbol"@ { i.colour } else { before.vor_symbol })
            &&& after.vor_name == (if i.folder == "VORs"@ && i.name == "name"@ { i.colour } else { before.vor_name })
            &&& after.vor_frequency == (if i.folder == "VORs"@ && i.name == "frequency"@ { i.colour } else { before.vor_frequency })
            &&& after.low_airway_line == (if i.folder == "Low airways"@ && i.name == "line"@ { i.colour } else { before.low_airway_line })
            &&& after.low_airway_name == (if i.folder == "Low airways"@ && i.name == "name"@ { i.colour } else { before.low_airway_name })
            &&& after.high_airway_line == (if i.folder == "High airways"@ && i.name == "line"@ { i.colour } else { before.high_airway_line })
            &&& after.high_airway_name == (if i.folder == "High airways"@ && i.name == "line"@ { i.colour } else { before.high_airway_name })
            &&& after.sid == (if i.folder == "Sids"@ && i.name == "line"@ { i.colour } else { before.sid })
            &&& after.star == (if i.folder == "Stars"@ && i.name == "line"@ { i.colour } else { before.star })
            &&& after.artcc_boundary == (if i.folder == "ARTCC boundary"@ && i.name == "line"@ { i.colour } else { before.artcc_boundary })
            &&& after.artcc_low_boundary == (if i.folder == "ARTCC low boundary"@ && i.name == "line"@ { i.colour } else { before.artcc_low_boundary })
            &&& after.artcc_high_boundary == (if i.folder == "ARTCC high boundary"@ && i.name == "line"@ { i.colour } else { before.artcc_high_boundary })
            &&& after.geo == (if i.folder == "Geo"@ && i.name == "line"@ { i.colour } else { before.geo })
            &&& after.runway_centreline == (if i.folder == "Runways"@ && i.name == "centerline"@ { i.colour } else { before.runway_centreline })
            &&& after.runway_extended_centreline == (if i.folder == "Runways"@ && i.name == "extended centerline"@ { i.colour } else { before.runway_extended_centreline })
            &&& after.runway_name == (if i.folder == "Runways"@ && i.name == "name"@ { i.colour } else { before.runway_name })
            &&& after.free_text == (if i.folder == "Other"@ && i.name == "freetext"@ { i.colour } else { before.free_text })
            &&& empty.fix_symbol == rgb(0, 0, 0)
            &&& empty.fix_name == rgb(0, 0, 0)
            &&& empty.airport_symbol == rgb(0, 0, 0)
            &&& empty.airport_name == rgb(0, 0, 0)
            &&& empty.ndb_symbol == rgb(0, 0, 0)
            &&& empty.ndb_name == rgb(0, 0, 0)
            &&& empty.ndb_frequency == rgb(0, 0, 0)
            &&& empty.vor_symbol == rgb(0, 0, 0)
            &&& empty.vor_name == rgb(0, 0, 0)
            &&& empty.vor_frequency == rgb(0, 0, 0)
            &&& empty.low_airway_line == rgb(0, 0, 0)
            &&& empty.low_airway_name == rgb(0, 0, 0)
            &&& empty.high_airway_line == rgb(0, 0, 0)
            &&& empty.high_airway_name == rgb(0, 0, 0)
            &&& empty.sid == rgb(0, 0, 0)
            &&& empty.star == rgb(0, 0, 0)
            &&& empty.artcc_boundary == rgb(0, 0, 0)
            &&& empty.artcc_low_boundary == rgb(0, 0, 0)
            &&& empty.artcc_high_boundary == rgb(0, 0, 0)
            &&& empty.geo == rgb(0, 0, 0)
            &&& empty.runway_centreline == rgb(0, 0, 0)
            &&& empty.runway_extended_centreline == rgb(0, 0, 0)
            &&& empty.runway_name == rgb(0, 0, 0)
            &&& empty.free_text == rgb(0, 0, 0)
        }),
{
    crate::symbology::lemma_item_appended(s, i, "Fixes"@, "symbol"@);
    crate::symbology::lemma_item_appended(s, i, "Fixes"@, "name"@);
    crate::symbology::lemma_item_appended(s, i, "Airports"@, "symbol"@);
    crate::symbology::lemma_item_appended(s, i, "Airports"@, "name"@);
    crate::symbology::lemma_item_appended(s, i, "NDBs"@, "symbol"@);
    crate::symbology::lemma_item_appended(s, i, "NDBs"@, "name"@);
    crate::symbology::lemma_item_appended(s, i, "NDBs"@, "frequency"@);
    crate::symbology::lemma_item_appended(s, i, "VORs"@, "symbol"@);
    crate::symbology::lemma_item_appended(s, i, "VORs"@, "name"@);
    crate::symbology::lemma_item_appended(s, i, "VORs"@, "frequency"@);
    crate::symbology::lemma_item_appended(s, i, "Low airways"@, "line"@);
    crate::symbology::lemma_item_appended(s, i, "Low airways"@, "name"@);
    crate::symbology::lemma_item_appended(s, i, "High airways"@, "line"@);
    crate::symbology::lemma_item_appended(s, i, "High airways"@, "line"@);
    crate::symbology::lemma_item_appended(s, i, "Sids"@, "line"@);
    crate::symbology::lemma_item_appended(s, i, "Stars"@, "line"@);
    crate::symbology::lemma_item_appended(s, i, "ARTCC boundary"@, "line"@);
    crate::symbology::lemma_item_appended(s, i, "ARTCC low boundary"@, "line"@);
    crate::symbology::lemma_item_appended(s, i, "ARTCC high boundary"@, "line"@);
    crate::symbology::lemma_item_appended(s, i, "Geo"@, "line"@);
    crate::symbology::lemma_item_appended(s, i, "Runways"@, "centerline"@);
    crate::symbology::lemma_item_appended(s, i, "Runways"@, "extended centerline"@);
    crate::symbology::lemma_item_appended(s, i, "Runways"@, "name"@);
    crate::symbology::lemma_item_appended(s, i, "Other"@, "freetext"@);
}

/// The default map colours.
pub open spec fn default_map_colours() -> MapColours {
    MapColours {
        fix_symbol: rgb(0, 0, 0),
        fix_name: rgb(0, 0, 0),
        airport_symbol: rgb(0, 0, 0),
        airport_name: rgb(0, 0, 0),
        ndb_symbol: rgb(0, 0, 0),
        ndb_name: rgb(0, 0, 0),
        ndb_frequency: rgb(0, 0, 0),
        vor_symbol: rgb(0, 0, 0),
        vor_name: rgb(0, 0, 0),
        vor_frequency: rgb(0, 0, 0),
        low_airway_line: rgb(0, 0, 0),
        low_airway_name: rgb(0, 0, 0),
        high_airway_line: rgb(0, 0, 0),
        high_airway_name: rgb(0, 0, 0),
        sid: rgb(0, 0, 0),
        star: rgb(0, 0, 0),
        artcc_boundary: rgb(0, 0, 0),
        artcc_low_boundary: rgb(0, 0, 0),
        artcc_high_boundary: rgb(0, 0, 0),
        geo: rgb(0, 0, 0),
        runway_centreline: rgb(0, 0, 0),
        runway_extended_centreline: rgb(0, 0, 0),
        runway_name: rgb(0, 0, 0),
        free_text: rgb(0, 0, 0),
    }
}

impl MapColours {
    /// The map colours of Symbology.txt, with defaults for the items it lacks.
    pub fn from_euroscope(symbology: &Symbology) -> (r: Self)
        ensures
            r == map_colours_from(symbology@),
            r.star == symbology_colour(symbology@, "Stars"@, "line"@, rgb(0, 0, 0)),
            r.sid == symbology_colour(symbology@, "Sids"@, "line"@, rgb(0, 0, 0)),
    {
        MapColours {
            fix_symbol: Colour::from_symbology(symbology, "Fixes", "symbol", Colour::from_rgb(0, 0, 0)),
            fix_name: Colour::from_symbology(symbology, "Fixes", "name", Colour::from_rgb(0, 0, 0)),
            airport_symbol: Colour::from_symbology(symbology, "Airports", "symbol", Colour::from_rgb(0, 0, 0)),
            airport_name: Colour::from_symbology(symbology, "Airports", "name", Colour::from_rgb(0, 0, 0)),
            ndb_symbol: Colour::from_symbology(symbology, "NDBs", "symbol", Colour::from_rgb(0, 0, 0)),
            ndb_name: Colour::from_symbology(symbology, "NDBs", "name", Colour::from_rgb(0, 0, 0)),
            ndb_frequency: Colour::from_symbology(symbology, "NDBs", "frequency", Colour::from_rgb(0, 0, 0)),
            vor_symbol: Colour::from_symbology(symbology, "VORs", "symbol", Colour::from_rgb(0, 0, 0)),
            vor_name: Colour::from_symbology(symbology, "VORs", "name", Colour::from_rgb(0, 0, 0)),
            vor_frequency: Colour::from_symbology(symbology, "VORs", "frequency", Colour::from_rgb(0, 0, 0)),
            low_airway_line: Colour::from_symbology(symbology, "Low airways", "line", Colour::from_rgb(0, 0, 0)),
            low_airway_name: Colour::from_symbology(symbology, "Low airways", "name", Colour::from_rgb(0, 0, 0)),
            high_airway_line: Colour::from_symbology(symbology, "High airways", "line", Colour::from_rgb(0, 0, 0)),
            high_airway_name: Colour::from_symbology(symbology, "High airways", "line", Colour::from_rgb(0, 0, 0)),
            sid: Colour::from_symbology(symbology, "Sids", "line", Colour::from_rgb(0, 0, 0)),
            star: Colour::from_symbology(symbology, "Stars", "line", Colour::from_rgb(0, 0, 0)),
            artcc_boundary: Colour::from_symbology(symbology, "ARTCC boundary", "line", Colour::from_rgb(0, 0, 0)),
            artcc_low_boundary: Colour::from_symbology(symbology, "ARTCC low boundary", "line", Colour::from_rgb(0, 0, 0)),
            artcc_high_boundary: Colour::from_symbology(symbology, "ARTCC high boundary", "line", Colour::from_rgb(0, 0, 0)),
            geo: Colour::from_symbology(symbology, "Geo", "line", Colour::from_rgb(0, 0, 0)),
            runway_centreline: Colour::from_symbology(symbology, "Runways", "centerline", Colour::from_rgb(0, 0, 0)),
            runway_extended_centreline: Colour::from_symbology(symbology, "Runways", "extended centerline", Colour::from_rgb(0, 0, 0)),
            runway_name: Colour::from_symbology(symbology, "Runways", "name", Colour::from_rgb(0, 0, 0)),
            free_text: Colour::from_symbology(symbology, "Other", "freetext", Colour::from_rgb(0, 0, 0)),
        }
    }
}

impl Default for MapColours {
    fn default() -> (r: Self)
        ensures
            r == default_map_colours(),
    {
        MapColours {
            fix_symbol: Colour::from_rgb(0, 0, 0),
            fix_name: Colour::from_rgb(0, 0, 0),
            airport_symbol: Colour::from_rgb(0, 0, 0),
            airport_name: Colour::from_rgb(0, 0, 0),
            ndb_symbol: Colour::from_rgb(0, 0, 0),
            ndb_name: Colour::from_rgb(0, 0, 0),
            ndb_frequency: Colour::from_rgb(0, 0, 0),
            vor_symbol: Colour::from_rgb(0, 0, 0),
            vor_name: Colour::from_rgb(0, 0, 0),
            vor_frequency: Colour::from_rgb(0, 0, 0),
            low_airway_line: Colour::from_rgb(0, 0, 0),
            low_airway_name: Colour::from_rgb(0, 0, 0),
            high_airway_line: Colour::from_rgb(0, 0, 0),
            high_airway_name: Colour::from_rgb(0, 0, 0),
            sid: Colour::from_rgb(0, 0, 0),
            star: Colour::from_rgb(0, 0, 0),
            artcc_boundary: Colour::from_rgb(0, 0, 0),
            artcc_low_boundary: Colour::from_rgb(0, 0, 0),
            artcc_high_boundary: Colour::from_rgb(0, 0, 0),
            geo: Colour::from_rgb(0, 0, 0),
            runway_centreline: Colour::from_rgb(0, 0, 0),
            runway_extended_centreline: Colour::from_rgb(0, 0, 0),
            runway_name: Colour::from_rgb(0, 0, 0),
            free_text: Colour::from_rgb(0, 0, 0),
        }
    }
}

/// Background colours of sectors.
#[derive(Clone, Copy, Debug, PartialEq, Eq, Structural)]
pub struct SectorColours {
    pub active_background: Colour,
    pub inactive_background: Colour,
}

/// The sector colours that Symbology.txt gives, each with its default.
pub open spec fn sector_colours_from(s: SymbologyV) -> SectorColours {
    SectorColours {
        active_background: symbology_colour(s, "Sector"@, "active sector background"@, rgb(200, 200, 200)),
        inactive_background: symbology_colour(s, "Sector"@, "inactive sector background"@, rgb(200, 200, 200)),
    }
}

/// The active and inactive sector backgrounds are the colours of the Symbology items
/// `Sector`/`active sector background` and `Sector`/`inactive sector background`,
/// light grey where there is none: appending an item sets exactly the one whose
/// folder and name it has.
pub proof fn lemma_sector_colour_items(s: SymbologyV, i: crate::symbology::ItemV)
    ensures
        ({
            let before = sector_colours_from(s);
            let after = sector_colours_from(SymbologyV { items: s.items.push(i), ..s });
            let empty = sector_colours_from(SymbologyV { items: seq![], ..s });
            &&& after.active_background == (if i.folder == "Sector"@ && i.name == "active sector background"@ { i.colour } else { before.active_background })
            &&& after.inactive_background == (if i.folder == "Sector"@ && i.name == "inactive sector background"@ { i.colour } else { before.inactive_background })
            &&& empty.active_background == rgb(200, 200, 200)
            &&& empty.inactive_background == rgb(200, 200, 200)
        }),
{
    crate::symbology::lemma_item_appended(s, i, "Sector"@, "active sector background"@);
    crate::symbology::lemma_item_appended(s, i, "Sector"@, "inactive sector background"@);
}

/// The default sector colours.
pub open spec fn default_sector_colours() -> SectorColours {
    SectorColours {
        active_background: rgb(200, 200, 200),
        inactive_background: rgb(200, 200, 200),
    }
}

impl SectorColours {
    /// The sector colours of Symbology.txt, with defaults for the items it lacks.
    pub fn from_euroscope(symbology: &Symbology) -> (r: Self)
        ensures
            r == sector_colours_from(symbology@),
    {
        SectorColours {
            active_background: Colour::from_symbology(symbology, "Sector", "active sector background", Colour::from_rgb(200, 200, 200)),
            inactive_background: Colour::from_symbology(symbology, "Sector", "inactive sector background", Colour::from_rgb(200, 200, 200)),
        }
    }
}

impl Default for SectorColours {
    fn default() -> (r: Self)
        ensures
            r == default_sector_colours(),
    {
        SectorColours {
            active_background: Colour::from_rgb(200, 200, 200),
            inactive_background: Colour::from_rgb(200, 200, 200),
        }
    }
}

/// Colours of tracks and their labels.
#[derive(Clone, Copy, Debug, PartialEq, Eq, Structural)]
pub struct TrackColours {
    pub assumed: Colour,
    pub advanced: Colour,
    pub concerned: Colour,
    pub unconcerned: Colour,
    pub flight_leg: Colour,
    pub predicted_alert: Colour,
    pub current_alert: Colour,
    pub reaction: Colour,
    pub cleared: Colour,
    pub vfr: Colour,
}

/// The colours that the TopSky files give, else TopSky's defaults for the scheme,
/// else the built-in defaults.
pub open spec fn track_colours_from(colours: Seq<(Seq<char>, Colour)>, coopans: bool) -> TrackColours {
    TrackColours {
        assumed: topsky_colour(colours, coopans, "Assumed"@, rgb(0, 0, 0)),
        advanced: topsky_colour(colours, coopans, "Concerned"@, rgb(0, 0, 255)),
        concerned: topsky_colour(colours, coopans, "Redundant"@, rgb(0, 0, 255)),
        unconcerned: topsky_colour(colours, coopans, "Unconcerned"@, rgb(255, 255, 255)),
        flight_leg: topsky_colour(colours, coopans, "Flight_Leg"@, rgb(0, 0, 0)),
        predicted_alert: topsky_colour(colours, coopans, "Warning"@, rgb(255, 255, 0)),
        current_alert: topsky_colour(colours, coopans, "Urgency"@, rgb(255, 0, 0)),
        reaction: topsky_colour(colours, coopans, "Proposition_In"@, rgb(230, 185, 184)),
        cleared: topsky_colour(colours, coopans, "Rwy_Locked"@, rgb(34, 139, 34)),
        vfr: topsky_colour(colours, coopans, "VFR"@, rgb(180, 150, 95)),
    }
}

/// The built-in defaults.
pub open spec fn default_track_colours() -> TrackColours {
    TrackColours {
        assumed: rgb(0, 0, 0),
        advanced: rgb(0, 0, 255),
        concerned: rgb(0, 0, 255),
        unconcerned: rgb(255, 255, 255),
        flight_leg: rgb(0, 0, 0),
        predicted_alert: rgb(255, 255, 0),
        current_alert: rgb(255, 0, 0),
        reaction: rgb(230, 185, 184),
        cleared: rgb(34, 139, 34),
        vfr: rgb(180, 150, 95),
    }
}

impl TrackColours {
    /// The colours of the TopSky files, falling back to TopSky's defaults for the
    /// scheme (`coopans`), then to the built-in ones.
    pub fn from_euroscope(topsky_colours: &Vec<(String, Colour)>, coopans: bool) -> (r: Self)
        ensures
            r == track_colours_from(colour_views(topsky_colours@), coopans),
    {
        TrackColours {
            assumed: Colour::from_topsky(topsky_colours, coopans, "Assumed", Colour::from_rgb(0, 0, 0)),
            advanced: Colour::from_topsky(topsky_colours, coopans, "Concerned", Colour::from_rgb(0, 0, 255)),
            concerned: Colour::from_topsky(topsky_colours, coopans, "Redundant", Colour::from_rgb(0, 0, 255)),
            unconcerned: Colour::from_topsky(topsky_colours, coopans, "Unconcerned", Colour::from_rgb(255, 255, 255)),
            flight_leg: Colour::from_topsky(topsky_colours, coopans, "Flight_Leg", Colour::from_rgb(0, 0, 0)),
            predicted_alert: Colour::from_topsky(topsky_colours, coopans, "Warning", Colour::from_rgb(255, 255, 0)),
            current_alert: Colour::from_topsky(topsky_colours, coopans, "Urgency", Colour::from_rgb(255, 0, 0)),
            reaction: Colour::from_topsky(topsky_colours, coopans, "Proposition_In", Colour::from_rgb(230, 185, 184)),
            cleared: Colour::from_topsky(topsky_colours, coopans, "Rwy_Locked", Colour::from_rgb(34, 139, 34)),
            vfr: Colour::from_topsky(topsky_colours, coopans, "VFR", Colour::from_rgb(180, 150, 95)),
        }
    }
}

impl Default for TrackColours {
    fn default() -> (r: Self)
        ensures
            r == default_track_colours(),
    {
        TrackColours {
            assumed: Colour::from_rgb(0, 0, 0),
            advanced: Colour::from_rgb(0, 0, 255),
            concerned: Colour::from_rgb(0, 0, 255),
            unconcerned: Colour::from_rgb(255, 255, 255),
            flight_leg: Colour::from_rgb(0, 0, 0),
            predicted_alert: Colour::from_rgb(255, 255, 0),
            current_alert: Colour::from_rgb(255, 0, 0),
            reaction: Colour::from_rgb(230, 185, 184),
            cleared: Colour::from_rgb(34, 139, 34),
            vfr: Colour::from_rgb(180, 150, 95),
        }
    }
}

/// Colours of the user interface.
#[derive(Clone, Copy, Debug, PartialEq, Eq, Structural)]
pub struct UIColours {
    pub foreground: Colour,
    pub background: Colour,
    pub armed: Colour,
    pub window_title_background_selected: Colour,
    pub text_input: Colour,
    pub warning: Colour,
    pub alert: Colour,
}

/// The colours that the TopSky files give, else TopSky's defaults for the scheme,
/// else the built-in defaults.
pub open spec fn ui_colours_from(colours: Seq<(Seq<char>, Colour)>, coopans: bool) -> UIColours {
    UIColours {
        foreground: topsky_colour(colours, coopans, "Foreground"@, rgb(0, 0, 0)),
        background: topsky_colour(colours, coopans, "Background"@, rgb(192, 192, 192)),
        armed: topsky_colour(colours, coopans, "Arm"@, rgb(160, 160, 160)),
        window_title_background_selected: topsky_colour(colours, coopans, "Background"@, rgb(192, 192, 192)),
        text_input: topsky_colour(colours, coopans, "Field_Highlight"@, rgb(170, 224, 224)),
        warning: topsky_colour(colours, coopans, "Warning"@, rgb(255, 255, 0)),
        alert: topsky_colour(colours, coopans, "Urgency"@, rgb(255, 0, 0)),
    }
}

/// The built-in defaults.
pub open spec fn default_ui_colours() -> UIColours {
    UIColours {
        foreground: rgb(0, 0, 0),
        background: rgb(192, 192, 192),
        armed: rgb(160, 160, 160),
        window_title_background_selected: rgb(192, 192, 192),
        text_input: rgb(170, 224, 224),
        warning: rgb(255, 255, 0),
        alert: rgb(255, 0, 0),
    }
}

impl UIColours {
    /// The colours of the TopSky files, falling back to TopSky's defaults for the
    /// scheme (`coopans`), then to the built-in ones.
    pub fn from_euroscope(topsky_colours: &Vec<(String, Colour)>, coopans: bool) -> (r: Self)
        ensures
            r == ui_colours_from(colour_views(topsky_colours@), coopans),
    {
        UIColours {
            foreground: Colour::from_topsky(topsky_colours, coopans, "Foreground", Colour::from_rgb(0, 0, 0)),
            background: Colour::from_topsky(topsky_colours, coopans, "Background", Colour::from_rgb(192, 192, 192)),
            armed: Colour::from_topsky(topsky_colours, coopans, "Arm", Colour::from_rgb(160, 160, 160)),
            window_title_background_selected: Colour::from_topsky(topsky_colours, coopans, "Background", Colour::from_rgb(192, 192, 192)),
            text_input: Colour::from_topsky(topsky_colours, coopans, "Field_Highlight", Colour::from_rgb(170, 224, 224)),
            warning: Colour::from_topsky(topsky_colours, coopans, "Warning", Colour::from_rgb(255, 255, 0)),
            alert: Colour::from_topsky(topsky_colours, coopans, "Urgency", Colour::from_rgb(255, 0, 0)),
        }
    }
}

impl Default for UIColours {
    fn default() -> (r: Self)
        ensures
            r == default_ui_colours(),
    {
        UIColours {
            foreground: Colour::from_rgb(0, 0, 0),
            background: Colour::from_rgb(192, 192, 192),
            armed: Colour::from_rgb(160, 160, 160),
            window_title_background_selected: Colour::from_rgb(192, 192, 192),
            text_input: Colour::from_rgb(170, 224, 224),
            warning: Colour::from_rgb(255, 255, 0),
            alert: Colour::from_rgb(255, 0, 0),
        }
    }
}

/// All colours of an adaptation: the colour sets, and the further colours that
/// maps refer to by name.
#[derive(Debug)]
pub struct Colours {
    pub track: TrackColours,
    pub sector: SectorColours,
    pub map: MapColours,
    pub ui: UIColours,
    /// The colours that maps refer to by name, in the order given.
    pub other: Vec<(String, Colour)>,
}

impl Colours {
    /// The colours that maps refer to by name: the sector file's, then the TopSky
    /// files'; of two with the same name the later counts.
    pub open spec fn named(&self) -> Seq<(Seq<char>, Colour)> {
        colour_views(self.other@)
    }

    /// A colour named in a map: one that the files give, else TopSky's default for
    /// the scheme.
    pub fn get(&self, name: &str, coopans: bool) -> (r: Option<Colour>)
        ensures
            r == match named_colour(self.named(), name@) {
                Some(c) => Some(c),
                None => topsky_default(coopans, name@),
            },
    {
        match find_named_colour(&self.other, name) {
            Some(c) => Some(c),
            None => Colour::from_topsky_default(coopans, name),
        }
    }

    /// The colours of an adaptation: the map and sector colours from Symbology.txt,
    /// the track and interface colours from the TopSky colours (see
    /// [`TrackColours::from_euroscope`]), and as named colours the sector file's
    /// followed by the TopSky ones.
    pub fn from_euroscope(
        symbology: &Symbology,
        sct_colours: &Vec<(String, Colour)>,
        topsky_colours: &Vec<(String, Colour)>,
        coopans: bool,
    ) -> (r: Self)
        ensures
            r.map == map_colours_from(symbology@),
            r.sector == sector_colours_from(symbology@),
            r.track == track_colours_from(colour_views(topsky_colours@), coopans),
            r.ui == ui_colours_from(colour_views(topsky_colours@), coopans),
            r.named() == colour_views(sct_colours@) + colour_views(topsky_colours@),
    {
        let mut other: Vec<(String, Colour)> = Vec::new();
        let mut i: usize = 0;
        while i < sct_colours.len()
            invariant
                i <= sct_colours@.len(),
                colour_views(other@) == colour_views(sct_colours@).take(i as int),
            decreases sct_colours@.len() - i,
        {
            let ghost before = colour_views(other@);
            let name = sct_colours[i].0.clone();
            other.push((name, sct_colours[i].1));
            proof {
                assert(colour_views(other@) =~= before.push((sct_colours@[i as int].0@, sct_colours@[i as int].1)));
                assert(colour_views(sct_colours@).take(i + 1) =~= colour_views(sct_colours@).take(i as int).push(colour_views(sct_colours@)[i as int]));
            }
            i = i + 1;
        }
        let mut k: usize = 0;
        proof {
            assert(colour_views(sct_colours@).take(sct_colours@.len() as int) =~= colour_views(sct_colours@));
        }
        while k < topsky_colours.len()
            invariant
                k <= topsky_colours@.len(),
                colour_views(other@) == colour_views(sct_colours@) + colour_views(topsky_colours@).take(k as int),
            decreases topsky_colours@.len() - k,
        {
            let ghost before = colour_views(other@);
            let name = topsky_colours[k].0.clone();
            other.push((name, topsky_colours[k].1));
            proof {
                assert(colour_views(other@) =~= before.push((topsky_colours@[k as int].0@, topsky_colours@[k as int].1)));
                assert(colour_views(topsky_colours@).take(k + 1) =~= colour_views(topsky_colours@).take(k as int).push(colour_views(topsky_colours@)[k as int]));
            }
            k = k + 1;
        }
        proof {
            assert(colour_views(topsky_colours@).take(topsky_colours@.len() as int) =~= colour_views(topsky_colours@));
        }
        Colours {
            map: MapColours::from_euroscope(symbology),
            sector: SectorColours::from_euroscope(symbology),
            track: TrackColours::from_euroscope(topsky_colours, coopans),
            ui: UIColours::from_euroscope(topsky_colours, coopans),
            other,
        }
    }
}

impl Default for Colours {
    fn default() -> (r: Self)
        ensures
            r.map == default_map_colours(),
            r.sector == default_sector_colours(),
            r.track == default_track_colours(),
            r.ui == default_ui_colours(),
            r.named() == Seq::<(Seq<char>, Colour)>::empty(),
    {
        let r = Colours {
            track: TrackColours::default(),
            sector: SectorColours::default(),
            map: MapColours::default(),
            ui: UIColours::default(),
            other: Vec::new(),
        };
        proof {
            assert(r.named() =~= Seq::<(Seq<char>, Colour)>::empty());
        }
        r
    }
}

/// A Symbology.txt without items leaves every map and sector colour at its default.
pub proof fn lemma_no_items_default_colours(s: SymbologyV)
    requires
        s.items.len() == 0,
    ensures
        map_colours_from(s) == default_map_colours(),
        sector_colours_from(s) == default_sector_colours(),
{
}

/// Of two lists of named colours put one after the other, a name given in the
/// second takes its colour from there, and otherwise from the first.
pub proof fn lemma_later_colours_override(
    first: Seq<(Seq<char>, Colour)>,
    second: Seq<(Seq<char>, Colour)>,
    name: Seq<char>,
)
    ensures
        named_colour(first + second, name) == match named_colour(second, name) {
            Some(c) => Some(c),
            None => named_colour(first, name),
        },
{
    let all = first + second;
    let pa = colour_named(all, name);
    let pf = colour_named(first, name);
    let ps = colour_named(second, name);
    let n1 = first.len() as int;
    let n = all.len() as int;
    lemma_last_index(n, pa);
    lemma_last_index(n1, pf);
    lemma_last_index(second.len() as int, ps);
    match last_index(second.len() as int, ps) {
        Some(j) => {
            assert(pa(n1 + j));
            assert forall|k: int| n1 + j < k < n implies !#[trigger] pa(k) by {
                assert(all[k] == second[k - n1]);
                assert(!ps(k - n1));
            }
            lemma_last_index_at(n, pa, n1 + j);
        },
        None => {
            assert forall|k: int| n1 <= k < n implies !#[trigger] pa(k) by {
                assert(all[k] == second[k - n1]);
                assert(!ps(k - n1));
            }
            match last_index(n1, pf) {
                Some(j) => {
                    assert(all[j] == first[j]);
                    assert(pa(j));
                    assert forall|k: int| j < k < n implies !#[trigger] pa(k) by {
                        if k < n1 {
                            assert(all[k] == first[k]);
                            assert(!pf(k));
                        }
                    }
                    lemma_last_index_at(n, pa, j);
                },
                None => {
                    assert forall|k: int| 0 <= k < n implies !#[trigger] pa(k) by {
                        if k < n1 {
                            assert(all[k] == first[k]);
                            assert(!pf(k));
                        }
                    }
                    lemma_last_index_none(n, pa);
                },
            }
        },
    }
}

} // verus!
