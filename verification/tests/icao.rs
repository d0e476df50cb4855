use vatsim_parser::icao::{AircraftType, EngineType, Wtc};

#[test]
fn wake_turbulence_categories() {
    assert_eq!("L".parse::<Wtc>().unwrap(), Wtc::LIGHT);
    assert_eq!(Wtc::from_code("J").unwrap(), Wtc::SUPER);
    assert_eq!(Wtc::from_code("-").unwrap(), Wtc::UNKNOWN);
    assert!(Wtc::from_code("X").is_err());
    assert!(Wtc::from_code("LM").is_err());
    assert!(Wtc::from_code("").is_err());
    assert_eq!(Wtc::HEAVY.as_str(), "H");
    assert_eq!(Wtc::UNKNOWN.as_str(), "?");
    for w in [Wtc::LIGHT, Wtc::MEDIUM, Wtc::HEAVY, Wtc::SUPER] {
        assert_eq!(Wtc::from_code(w.as_str()).unwrap(), w);
    }
}

#[test]
fn aircraft_and_engine_types() {
    assert_eq!("H".parse::<AircraftType>().unwrap(), AircraftType::HELICOPTER);
    assert_eq!(AircraftType::from_code("T").unwrap(), AircraftType::TILTROTOR);
    assert!(AircraftType::from_code("J").is_err());
    assert_eq!("J".parse::<EngineType>().unwrap(), EngineType::JET);
    assert_eq!(EngineType::from_code("E").unwrap(), EngineType::ELECTRIC);
    assert!(EngineType::from_code("L").is_err());
}
