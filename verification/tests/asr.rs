use vatsim_parser::asr::{
    Asr, AsrError, AsrMapAirwayType, AsrMapFixType, AsrMapNavaidType, AsrMapRunwayType,
    DisplayType, Leader, SimulationMode,
};

#[test]
fn asr_reads_settings_and_map_elements() {
    let content = b"DisplayTypeName:Standard ES radar screen\r\nDisplayTypeNeedRadarContent:1\r\nDisplayTypeGeoReferenced:1\r\nSECTORFILE:C:\\sct\\EDMM.sct\r\nSECTORTITLE:EDMM\r\nSHOWC:1\r\nSHOWSB:0\r\nBELOW:0\r\nABOVE:24500\r\nLEADER:-2\r\nSHOWLEADER:1\r\nTURNLEADER:0\r\nHISTORY_DOTS:4\r\nSIMULATION_MODE:1\r\nDISPLAYROTATION:0.00000\r\nTAGFAMILY:iCAS2\r\nWINDOWAREA:47.1:10.2:49.3:13.4\r\nPLUGIN:TopSky plugin:ShowMapData:APP,EDDM_APP\r\nRunways:EDDM 08L-26R:centerline\r\nAirports:EDDM:symbol\r\nVORs:OTT:frequency\r\nFixes:UPTON:name\r\nHigh airways:UL997:line\r\nSids:EDDM 26R GIVMI1N\r\nGeo:Coastline\r\n";
    let asr = Asr::parse(content).unwrap();
    assert_eq!(asr.display_type, DisplayType::Radar);
    assert!(asr.display_type_need_radar_content);
    assert_eq!(asr.sector_file, "C:\\sct\\EDMM.sct");
    assert_eq!(asr.sector_title, "EDMM");
    assert!(asr.show_c);
    assert!(!asr.show_standby);
    assert_eq!(asr.below, None);
    assert_eq!(asr.above, Some(24500));
    assert_eq!(asr.leader, Leader::Minutes(2));
    assert!(asr.show_leader);
    assert_eq!(asr.history_dots, 4);
    assert_eq!(asr.simulation_mode, SimulationMode::Radar);
    assert_eq!(asr.display_rotation, "0.00000");
    assert_eq!(asr.tag_family, "iCAS2");
    assert_eq!(
        asr.window_area,
        ("47.1".to_string(), "10.2".to_string(), "49.3".to_string(), "13.4".to_string())
    );
    assert_eq!(
        asr.plugin_settings,
        vec![(
            "TopSky plugin".to_string(),
            "ShowMapData".to_string(),
            "APP,EDDM_APP".to_string()
        )]
    );
    assert_eq!(
        asr.map.runways,
        vec![(
            "EDDM".to_string(),
            "08L".to_string(),
            "26R".to_string(),
            AsrMapRunwayType::Centerline
        )]
    );
    assert_eq!(asr.map.airports, vec![("EDDM".to_string(), AsrMapFixType::Symbol)]);
    assert_eq!(asr.map.vors, vec![("OTT".to_string(), AsrMapNavaidType::Frequency)]);
    assert_eq!(asr.map.fixes, vec![("UPTON".to_string(), AsrMapFixType::Name)]);
    assert_eq!(
        asr.map.high_airways,
        vec![("UL997".to_string(), AsrMapAirwayType::Line)]
    );
    assert_eq!(asr.map.sids, vec!["EDDM 26R GIVMI1N".to_string()]);
    assert_eq!(asr.map.geo, vec!["Coastline".to_string()]);
}

#[test]
fn asr_defaults_and_ground_mode() {
    let asr = Asr::parse(b"DisplayTypeName:Ground Radar display\nSIMULATION_MODE:4\nLEADER:5\nno colon here\nUNKNOWN:1\n").unwrap();
    assert_eq!(asr.display_type, DisplayType::GroundRadar);
    assert_eq!(asr.simulation_mode, SimulationMode::Ground);
    assert_eq!(asr.leader, Leader::Miles(5));
    assert_eq!(asr.history_dots, 5);
    assert_eq!(asr.tag_family, "Matias (built in)");
    assert_eq!(asr.display_rotation, "0");
}

#[test]
fn asr_invalid_line_is_reported() {
    assert_eq!(
        Asr::parse(b"SHOWC:1\nABOVE:high\n").unwrap_err(),
        AsrError::Parse { line: 2 }
    );
    assert_eq!(
        Asr::parse(b"Fixes:UPTON:colour\n").unwrap_err(),
        AsrError::Parse { line: 1 }
    );
    // a boolean other than 0 or 1 drops the line
    assert!(Asr::parse(b"SHOWC:2\n").unwrap().show_c);
}

#[test]
fn repeated_plugin_settings_keep_the_last_value() {
    let content = b"PLUGIN:TopSky plugin:ShowMapData:APP\r\nPLUGIN:Other:ShowMapData:X\r\nPLUGIN:TopSky plugin:ShowMapData:CTR\r\n";
    let asr = Asr::parse(content).unwrap();
    assert_eq!(
        asr.plugin_settings,
        vec![
            ("TopSky plugin".to_string(), "ShowMapData".to_string(), "CTR".to_string()),
            ("Other".to_string(), "ShowMapData".to_string(), "X".to_string()),
        ]
    );
}
