use std::collections::HashMap;

use vatsim_parser::icao::{Aircraft, AircraftType, Airport, EngineType, Wtc};
use vatsim_parser::icao_aircraft::parse_aircraft;
use vatsim_parser::icao_airlines::{parse_airlines, Airline};
use vatsim_parser::icao_airports::parse_airports;

#[test]
fn test_aircraft() {
    let aircraft_bytes = b"
;========================COMMENT=======================================================================================;
EUFI	ML2J	ALENIA	Eurofighter 2000, Typhoon
F260	LL1P	AERMACCHI	SF260E/F, Warrior
A388	JL4J	AIRBUS	A380-800
C208	LL1T	CESSNA	208 Caravan 1, (Super)Cargomaster, Grand  Caravan (C98, U27)
EC45	LH2T	EUROCOPTER	EC145
C08T	LLCT	SOLOY	208 DualPac Caravan, Pathfinder 21
continued model name from the previous line we ignore
ZZZZ	----	-	Aircraft type not assigned
";

    let parsed: HashMap<String, Aircraft> = parse_aircraft(aircraft_bytes)
        .into_iter()
        .map(|a| (a.designator.clone(), a))
        .collect();

    assert_eq!(
        parsed,
        HashMap::from([
            (
                "EUFI".to_string(),
                Aircraft {
                    designator: "EUFI".to_string(),
                    wtc: Wtc::MEDIUM,
                    aircrafttype: AircraftType::LANDPLANE,
                    num_engines: 2,
                    enginetype: EngineType::JET,
                    manufacturer: "ALENIA".to_string(),
                    name: "Eurofighter 2000, Typhoon".to_string(),
                }
            ),
            (
                "A388".to_string(),
                Aircraft {
                    designator: "A388".to_string(),
                    wtc: Wtc::SUPER,
                    aircrafttype: AircraftType::LANDPLANE,
                    num_engines: 4,
                    enginetype: EngineType::JET,
                    manufacturer: "AIRBUS".to_string(),
                    name: "A380-800".to_string(),
                }
            ),
            (
                "C208".to_string(),
                Aircraft {
                    designator: "C208".to_string(),
                    wtc: Wtc::LIGHT,
                    aircrafttype: AircraftType::LANDPLANE,
                    num_engines: 1,
                    enginetype: EngineType::TURBOPROP,
                    manufacturer: "CESSNA".to_string(),
                    name: "208 Caravan 1, (Super)Cargomaster, Grand  Caravan (C98, U27)".to_string(),
                }
            ),
            (
                "EC45".to_string(),
                Aircraft {
                    designator: "EC45".to_string(),
                    wtc: Wtc::LIGHT,
                    aircrafttype: AircraftType::HELICOPTER,
                    num_engines: 2,
                    enginetype: EngineType::TURBOPROP,
                    manufacturer: "EUROCOPTER".to_string(),
                    name: "EC145".to_string(),
                }
            ),
            (
                "F260".to_string(),
                Aircraft {
                    designator: "F260".to_string(),
                    wtc: Wtc::LIGHT,
                    aircrafttype: AircraftType::LANDPLANE,
                    num_engines: 1,
                    enginetype: EngineType::PISTON,
                    manufacturer: "AERMACCHI".to_string(),
                    name: "SF260E/F, Warrior".to_string(),
                }
            ),
            (
                "C08T".to_string(),
                Aircraft {
                    designator: "C08T".to_string(),
                    wtc: Wtc::LIGHT,
                    aircrafttype: AircraftType::LANDPLANE,
                    num_engines: 0,
                    enginetype: EngineType::TURBOPROP,
                    manufacturer: "SOLOY".to_string(),
                    name: "208 DualPac Caravan, Pathfinder 21".to_string(),
                }
            ),
            (
                "ZZZZ".to_string(),
                Aircraft {
                    designator: "ZZZZ".to_string(),
                    wtc: Wtc::UNKNOWN,
                    aircrafttype: AircraftType::UNKNOWN,
                    num_engines: 0,
                    enginetype: EngineType::UNKNOWN,
                    manufacturer: "-".to_string(),
                    name: "Aircraft type not assigned".to_string(),
                }
            ),
        ])
    );
}

#[test]
fn aircraft_first_definition_counts() {
    let parsed = parse_aircraft(b"A320\tML2J\tAIRBUS\tA-320\nA320\tHL4J\tOTHER\tX\nB737\tXL2J\tBOEING\tbad code\n");
    assert_eq!(parsed.len(), 1);
    assert_eq!(parsed[0].manufacturer, "AIRBUS");
}

#[test]
fn test_airlines() {
    let airway_bytes = b"
;========================COMMENT=======================================================================================;
BWW	VATGER RG MUENCHEN	BAVARIAN WEISSWURST	GERMANY
CAP	UNITED STATES AIR FORCE AUXILIARY /  CIVIL AIR PATROL (RICHMOND, VA)	CAP	UNITED STATES
; inline comment
CNW	NORTH-WESTERN CARGO INTERNATIONAL AIRLINES CO.,LTD 	TANG	CHINA
";

    let parsed: HashMap<String, Airline> = parse_airlines(airway_bytes)
        .into_iter()
        .map(|a| (a.designator.clone(), a))
        .collect();

    assert_eq!(
        parsed,
        HashMap::from([
            (
                "BWW".to_string(),
                Airline {
                    designator: "BWW".to_string(),
                    name: "VATGER RG MUENCHEN".to_string(),
                    callsign: "BAVARIAN WEISSWURST".to_string(),
                    country: "GERMANY".to_string()
                }
            ),
            (
                "CAP".to_string(),
                Airline {
                    designator: "CAP".to_string(),
                    name: "UNITED STATES AIR FORCE AUXILIARY /  CIVIL AIR PATROL (RICHMOND, VA)"
                        .to_string(),
                    callsign: "CAP".to_string(),
                    country: "UNITED STATES".to_string()
                }
            ),
            (
                "CNW".to_string(),
                Airline {
                    designator: "CNW".to_string(),
                    name: "NORTH-WESTERN CARGO INTERNATIONAL AIRLINES CO.,LTD".to_string(),
                    callsign: "TANG".to_string(),
                    country: "CHINA".to_string()
                }
            ),
        ])
    );
}

#[test]
fn test_airports() {
    let airports_bytes = b"
;========================COMMENT=======================================================================================;
EBOS	OOSTENDE BRUGGE/OOSTENDE	Belgium
EDDM	MUNICH	Germany
EDGL	BERUFSGENOSSENSCHAFTLICHE UNFALLKLINIK LUDWIGSHAFEN	Germany";

    let parsed: HashMap<String, Airport> = parse_airports(airports_bytes)
        .into_iter()
        .map(|a| (a.designator.clone(), a))
        .collect();

    assert_eq!(
        parsed,
        HashMap::from([
            (
                "EBOS".to_string(),
                Airport {
                    designator: "EBOS".to_string(),
                    name: "OOSTENDE BRUGGE/OOSTENDE".to_string(),
                    country: "Belgium".to_string(),
                }
            ),
            (
                "EDDM".to_string(),
                Airport {
                    designator: "EDDM".to_string(),
                    name: "MUNICH".to_string(),
                    country: "Germany".to_string(),
                }
            ),
            (
                "EDGL".to_string(),
                Airport {
                    designator: "EDGL".to_string(),
                    name: "BERUFSGENOSSENSCHAFTLICHE UNFALLKLINIK LUDWIGSHAFEN".to_string(),
                    country: "Germany".to_string(),
                }
            ),
        ])
    );
}

#[test]
fn airlines_and_airports_first_definition_counts() {
    let airlines = parse_airlines(b"DLH\tLufthansa\tLUFTHANSA\tGermany\nDLH\tOther\tOTHER\tNowhere\n");
    assert_eq!(airlines.len(), 1);
    assert_eq!(airlines[0].name, "Lufthansa");
    let airports = parse_airports(b"EDDM\tMunich\tGermany\nEDDM\tOther\tNowhere\nEDDF\tFrankfurt\tGermany\n");
    assert_eq!(airports.len(), 2);
    assert_eq!(airports[0].name, "Munich");
    assert_eq!(airports[1].designator, "EDDF");
}
