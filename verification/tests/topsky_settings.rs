use vatsim_parser::colours::Colour;
use vatsim_parser::settings::{coopans, HistoryDotsSettings};
use vatsim_parser::topsky_settings::{parse_topsky_settings, TopskySettingsError};

fn colour_of(colours: &[vatsim_parser::topsky_settings::ColourDef], name: &str) -> Option<Colour> {
    colours.iter().rev().find(|c| c.name == name).map(|c| c.colour)
}

#[test]
fn test_settings_colours() {
    let settings_str = r"Setup_COOPANS=1

Airspace_ASSR_Type=2
Color_Active_Map_Type_16=160,160,160
Color_Active_Map_Type_17=255,255,255
Color_Active_Map_Type_18=0,160,0 //MVA - light gray
Color_Active_Map_Type_19=225,225,225 //Airspace C TMZ and AWYs
Color_Active_Map_Type_20=140,140,140 //Sectorlines and Labels
[_APP]
Color_Active_Map_Type_17=205,255,255
[EDMM_]
        ";
    let colours = parse_topsky_settings(settings_str).unwrap().0;

    assert!(colour_of(&colours, "Active_Map_Type_16").unwrap() == Colour::from_rgb(160, 160, 160));
    assert!(colour_of(&colours, "Active_Map_Type_17").unwrap() == Colour::from_rgb(255, 255, 255));
    assert!(colour_of(&colours, "Active_Map_Type_18").unwrap() == Colour::from_rgb(0, 160, 0));
    assert!(colour_of(&colours, "Active_Map_Type_19").unwrap() == Colour::from_rgb(225, 225, 225));
    assert!(colour_of(&colours, "Active_Map_Type_20").unwrap() == Colour::from_rgb(140, 140, 140));
}

#[test]
fn topsky_settings_values_and_bad_colours() {
    let (colours, settings) =
        parse_topsky_settings("Setup_COOPANS = 0\nColor_Bad=1,2\nColor_Big=1,2,300\nTrack_HistoryDots=4\n").unwrap();
    assert!(colours.is_empty());
    assert_eq!(settings.get("Setup_COOPANS").unwrap(), "0");
    assert_eq!(settings.get("Track_HistoryDots").unwrap(), "4");
    assert!(settings.get("Missing").is_none());
    assert!(!coopans(Some(&settings)));
    assert!(coopans(None));
    assert_eq!(settings.parse_u32_with_default("Track_HistoryDots", 6), 4);
    assert_eq!(settings.parse_u32_with_default("Missing", 6), 6);
    let dots = HistoryDotsSettings::from_topsky(&settings);
    assert!(dots.enabled);
    assert_eq!(dots.count, 4);
}

#[test]
fn topsky_history_dots_zero_disables() {
    let (_, settings) = parse_topsky_settings("Track_HistoryDots=0\n").unwrap();
    let dots = HistoryDotsSettings::from_topsky(&settings);
    assert!(!dots.enabled);
    assert_eq!(dots.count, 6);
    assert_eq!(dots.options, vec![0, 1, 2, 3, 4, 5, 6, 7, 8]);
    let (_, settings) = parse_topsky_settings("Setup_COOPANS=1\n").unwrap();
    assert!(coopans(Some(&settings)));
}

#[test]
fn topsky_settings_invalid_line() {
    assert_eq!(
        parse_topsky_settings("A=1\nnot a setting\n").unwrap_err(),
        TopskySettingsError::Parse { line: 2 }
    );
    // within sections nothing is read
    assert!(parse_topsky_settings("[S]\nnot a setting\n").is_ok());
}
