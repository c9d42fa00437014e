use chrono::Datelike;
use flights::parser::builder::{
    build_aircraft_from_string, build_aircraft_on, extract_data_from_string, extract_data_on,
    AircraftBuildError, AircraftBuilder, AircraftBuilderData, InvalidMessageError,
};
use flights::parser::types::{OGNBeaconID, OGNIDPrefix};
use flights::parser::parse_lines;
use flights::types::{callsign_is_valid, Aircraft, Coordinate, ICAOAddress, Timestamp};

const CANONICAL: &str = "ICA407F7A>OGADSB,qAS,Lengfeld:/102100h4938.77N/00848.62E^129/435/A=035443 !W29! id25407F7A +0fpm FL349.75 A3:EZY62RN Sq2731\r\n";

fn timestamp_of(datetime: chrono::DateTime<chrono::Utc>) -> Timestamp {
    Timestamp::new(datetime.timestamp(), datetime.timestamp_subsec_nanos())
}

fn decimal_degrees(coordinate: Coordinate) -> f64 {
    let minutes = coordinate.minute_hundredths as f64 / 100.0;
    coordinate.degrees as f64 + minutes / 60.0
}

fn day_number(year: i32, month: u32, day: u32) -> i32 {
    chrono::NaiveDate::from_ymd_opt(year, month, day).unwrap().num_days_from_ce()
}

#[test]
fn when_unpacking_valid_string_for_gps_data_then_correct_data_is_extracted() {
    let string = String::from("102100h4938.77N/00848.62E^129/435/A=035443");
    let aircraft_data = extract_data_from_string(&string)
        .expect("This should construct no errors")
        .expect("This should return Some value");
    let expected_time = chrono::NaiveTime::from_hms_opt(10, 21, 00).unwrap();
    let expected_date = chrono::Local::now().date_naive();
    let expected_datetime = expected_date.and_time(expected_time).and_utc();
    match aircraft_data {
        AircraftBuilderData::GPSData {
            time,
            latitude,
            longitude,
            ground_track,
            ground_speed,
            gps_altitude,
        } => {
            assert_eq!(time, timestamp_of(expected_datetime));
            assert_eq!(decimal_degrees(latitude), 49.646166666666666);
            assert_eq!(decimal_degrees(longitude), 8.810333333333332);
            assert_eq!(ground_track as f64, 129.0);
            assert_eq!(ground_speed as f64, 435.0);
            assert_eq!(gps_altitude as f64, 35443.0);
        }
        other => panic!("expected a position, got {:?}", other),
    }
    let expected_aircraft_data = AircraftBuilderData::GPSData {
        time: timestamp_of(expected_datetime),
        latitude: Coordinate { degrees: 49, minute_hundredths: 3877 },
        longitude: Coordinate { degrees: 8, minute_hundredths: 4862 },
        ground_track: 129,
        ground_speed: 435,
        gps_altitude: 35443,
    };
    assert_eq!(aircraft_data, expected_aircraft_data);
}

#[test]
fn when_unpacking_valid_string_for_ogn_beacon_id_data_then_correct_data_is_extracted() {
    let string = String::from("id00A80F3B");
    let aircraft_data = extract_data_from_string(&string)
        .expect("This should construct no errors")
        .expect("This should return Some value");
    let expected_icao_address = ICAOAddress::new(11013947).unwrap();
    let expected_prefix = OGNIDPrefix::new(0).unwrap();
    let expected_beacon_id_data = OGNBeaconID::new(expected_prefix, expected_icao_address);

    let expected_aircraft_data = AircraftBuilderData::OGNBeaconIDData(expected_beacon_id_data);
    assert_eq!(aircraft_data, expected_aircraft_data);
}

#[test]
fn when_valid_ogn_line_is_parsed_then_correct_aircraft_struct_is_constructed() {
    let string = String::from(CANONICAL);
    let expected_time = chrono::NaiveTime::from_hms_opt(10, 21, 00).unwrap();
    let expected_date = chrono::Local::now().date_naive();
    let expected_datetime = expected_date.and_time(expected_time).and_utc();

    let aircraft = build_aircraft_from_string(&string).unwrap();
    assert_eq!(decimal_degrees(aircraft.latitude), 49.646166666666666);
    assert_eq!(decimal_degrees(aircraft.longitude), 8.810333333333332);
    assert_eq!(aircraft.ground_track as f64, 129.0);
    assert_eq!(aircraft.ground_speed as f64, 435.0);
    assert_eq!(aircraft.gps_altitude as f64, 35443.0);
    let expected_aircraft = Aircraft {
        callsign: String::from("ICA407F7A"),
        icao_address: ICAOAddress::new(0x407F7A).unwrap(),
        datetime: timestamp_of(expected_datetime),
        latitude: Coordinate { degrees: 49, minute_hundredths: 3877 },
        longitude: Coordinate { degrees: 8, minute_hundredths: 4862 },
        ground_track: 129,
        ground_speed: 435,
        gps_altitude: 35443,
    };
    assert_eq!(aircraft, expected_aircraft);
}

#[test]
fn the_day_of_a_report_is_the_day_that_is_given() {
    let aircraft = build_aircraft_on(CANONICAL, day_number(2024, 3, 9)).unwrap();
    let expected = chrono::NaiveDate::from_ymd_opt(2024, 3, 9)
        .unwrap()
        .and_hms_opt(10, 21, 0)
        .unwrap()
        .and_utc();
    assert_eq!(aircraft.datetime, timestamp_of(expected));
    assert_eq!(aircraft.datetime, Timestamp::new(1_709_979_660, 0));
    let epoch = build_aircraft_on(CANONICAL, 719_163).unwrap();
    assert_eq!(epoch.datetime, Timestamp::new(10 * 3600 + 21 * 60, 0));
    let before_epoch = build_aircraft_on(CANONICAL, 719_162).unwrap();
    assert_eq!(before_epoch.datetime, Timestamp::new(10 * 3600 + 21 * 60 - 86_400, 0));
}

#[test]
fn a_comment_line_gives_no_report() {
    let refused = build_aircraft_from_string("# comment line");
    assert_eq!(
        refused,
        Err(AircraftBuildError::InvalidMessage(InvalidMessageError::InvalidFormat(String::from(
            "No valid callsign"
        ))))
    );
    assert!(parse_lines(&vec![String::from("# comment line")], 1).is_empty());
}

#[test]
fn a_line_without_body_is_refused() {
    assert_eq!(
        build_aircraft_on("ICA407F7A>OGADSB,qAS,Lengfeld", 1),
        Err(AircraftBuildError::InvalidMessage(InvalidMessageError::InvalidFormat(String::from(
            "Cannot establish header"
        ))))
    );
    assert_eq!(
        build_aircraft_on("", 1),
        Err(AircraftBuildError::InvalidMessage(InvalidMessageError::InvalidFormat(String::from(
            "No valid callsign"
        ))))
    );
    assert_eq!(
        build_aircraft_on("a>b:", 1),
        Err(AircraftBuildError::InvalidMessage(InvalidMessageError::InvalidFormat(String::from(
            "Cannot establish header"
        ))))
    );
}

#[test]
fn a_line_without_identifier_misses_the_address() {
    let line = "ICA407F7A>OGADSB:/102100h4938.77N/00848.62E^129/435/A=035443 !W29!";
    assert_eq!(build_aircraft_on(line, 1), Err(AircraftBuildError::MissingICAOAddress));
    assert_eq!(build_aircraft_on("a>b:/", 1), Err(AircraftBuildError::MissingICAOAddress));
    assert_eq!(build_aircraft_on("a>b:/   \t ", 1), Err(AircraftBuildError::MissingICAOAddress));
}

#[test]
fn a_line_without_position_misses_the_time() {
    let line = "ICA407F7A>OGADSB:/id25407F7A +0fpm";
    assert_eq!(build_aircraft_on(line, 1), Err(AircraftBuildError::MissingTime));
}

#[test]
fn a_time_that_no_clock_shows_refuses_the_line() {
    for time in ["240000", "236000", "235961", "999999"] {
        let line = format!("X>Y:/{}h4938.77N/00848.62E^129/435/A=035443 id25407F7A", time);
        assert!(matches!(
            build_aircraft_on(&line, 1),
            Err(AircraftBuildError::InvalidMessage(InvalidMessageError::InvalidTimeFormat(_)))
        ));
    }
    let token = "240000h4938.77N/00848.62E^129/435/A=035443";
    assert_eq!(
        extract_data_on(token, 1),
        Err(AircraftBuildError::InvalidMessage(InvalidMessageError::InvalidTimeFormat(
            String::from("input is out of range")
        )))
    );
}

#[test]
fn the_clock_is_read_as_hours_minutes_seconds() {
    let cases: Vec<(&str, i64, u32)> = vec![
        ("000000", 0, 0),
        ("000001", 1, 0),
        ("000100", 60, 0),
        ("010000", 3600, 0),
        ("235959", 86_399, 0),
        ("123456", 12 * 3600 + 34 * 60 + 56, 0),
        ("235960", 86_399, 1_000_000_000),
        ("000060", 59, 1_000_000_000),
    ];
    for (time, seconds, nanos) in cases {
        let token = format!("{}h4938.77N/00848.62E^129/435/A=035443", time);
        match extract_data_on(&token, 719_163) {
            Ok(Some(AircraftBuilderData::GPSData { time, .. })) => {
                assert_eq!(time, Timestamp::new(seconds, nanos));
            }
            other => panic!("expected a position, got {:?}", other),
        }
    }
}

#[test]
fn the_last_position_and_the_last_identifier_win() {
    let line = "C>X:/102100h4938.77N/00848.62E^129/435/A=035443 id25407F7A 112233h0102.03N\\00405.06E^007/008/A=000009 id00000001";
    let aircraft = build_aircraft_on(line, 719_163).unwrap();
    assert_eq!(aircraft.icao_address.value(), 1);
    assert_eq!(aircraft.datetime, Timestamp::new(11 * 3600 + 22 * 60 + 33, 0));
    assert_eq!(aircraft.latitude, Coordinate { degrees: 1, minute_hundredths: 203 });
    assert_eq!(aircraft.longitude, Coordinate { degrees: 4, minute_hundredths: 506 });
    assert_eq!(aircraft.ground_track, 7);
    assert_eq!(aircraft.ground_speed, 8);
    assert_eq!(aircraft.gps_altitude, 9);
}

#[test]
fn the_callsign_is_what_stands_before_the_first_angle() {
    let line = "AB>CD>EF:/102100h4938.77N/00848.62E^129/435/A=035443 id25407F7A";
    assert_eq!(build_aircraft_on(line, 1).unwrap().callsign, "AB");
    let late = "AB:/102100h4938.77N/00848.62E^129/435/A=035443 id25407F7A >";
    assert_eq!(build_aircraft_on(late, 1).unwrap().callsign, late.split('>').next().unwrap());
}

#[test]
fn a_line_without_a_callsign_is_refused() {
    let empty = ">:/102100h4938.77N/00848.62E^129/435/A=035443 id25407F7A";
    assert_eq!(build_aircraft_on(empty, 1), Err(AircraftBuildError::MissingCallsign));
    let headed = ">OGADSB,qAS,Lengfeld:/102100h4938.77N/00848.62E^129/435/A=035443 id25407F7A";
    assert_eq!(build_aircraft_on(headed, 1), Err(AircraftBuildError::MissingCallsign));
    assert_eq!(build_aircraft_from_string(headed), Err(AircraftBuildError::MissingCallsign));
    // the callsign is looked at before the body
    assert_eq!(build_aircraft_on(">x:/nothing", 1), Err(AircraftBuildError::MissingCallsign));
    assert_eq!(
        build_aircraft_on(">x:/250000h4938.77N/00848.62E^129/435/A=035443", 1),
        Err(AircraftBuildError::MissingCallsign)
    );
    // and after the two delimiters
    assert_eq!(
        build_aircraft_on(">x", 1),
        Err(AircraftBuildError::InvalidMessage(InvalidMessageError::InvalidFormat(String::from(
            "Cannot establish header"
        ))))
    );
    assert!(parse_lines(&vec![String::from(headed)], 1).is_empty());
}

#[test]
fn a_callsign_that_is_not_ascii_is_refused() {
    let wide = "Zoë>:/102100h4938.77N/00848.62E^129/435/A=035443 id25407F7A";
    assert_eq!(build_aircraft_on(wide, 1), Err(AircraftBuildError::MissingCallsign));
    let last = "ICA407F7\u{80}>X:/102100h4938.77N/00848.62E^129/435/A=035443 id25407F7A";
    assert_eq!(build_aircraft_on(last, 1), Err(AircraftBuildError::MissingCallsign));
    // every ASCII character can stand in a callsign, and the body may hold others
    let edge = "\u{0} \u{7f}>X:/102100h4938.77N/00848.62E^129/435/A=035443\u{2003}id25407F7A é";
    assert_eq!(build_aircraft_on(edge, 1).unwrap().callsign, "\u{0} \u{7f}");
    assert!(callsign_is_valid("ICA407F7A"));
    assert!(callsign_is_valid(" "));
    assert!(!callsign_is_valid(""));
    assert!(!callsign_is_valid("é"));
}

#[test]
fn tokens_that_match_no_pattern_are_noise() {
    for token in [
        "",
        "!W29!",
        "+0fpm",
        "FL349.75",
        "id25407F7",
        "id25407F7G",
        "ID25407F7A",
        "10210h4938.77N/00848.62E^129/435/A=035443",
        "102100h4938.77S/00848.62E^129/435/A=035443",
        "102100h4938.77N/00848.62W^129/435/A=035443",
        "102100h4938.77N|00848.62E^129/435/A=035443",
        "102100h4938,77N/00848.62E^129/435/A=035443",
        "102100h4938.77N/00848.62E^129/435/A=03544",
        " 102100h4938.77N/00848.62E^129/435/A=035443",
        "x102100h4938.77N/00848.62E^129/435/A=035443",
    ] {
        assert_eq!(extract_data_on(token, 1), Ok(None), "token {:?}", token);
    }
}

#[test]
fn the_patterns_are_found_where_they_stand() {
    let address = |token: &str| match extract_data_on(token, 1) {
        Ok(Some(AircraftBuilderData::OGNBeaconIDData(id))) => Some((id.prefix.hex, id.icao_address.value())),
        _ => None,
    };
    assert_eq!(address("id25407F7A"), Some((0x25, 0x407F7A)));
    assert_eq!(address("xxid25407f7ayy"), Some((0x25, 0x407F7A)));
    assert_eq!(address("idid25407F7A"), Some((0x25, 0x407F7A)));
    assert_eq!(address("idXXid00000001id00000002"), Some((0x00, 1)));
    assert_eq!(address("ididididFFFFFFFF"), Some((0xFF, 0xFFFFFF)));
    // A position wins over an identifier in the same token, and may be
    // followed by anything.
    let both = "102100h4938.77N\\00848.62E^129/435/A=035443id25407F7A";
    assert!(matches!(extract_data_on(both, 1), Ok(Some(AircraftBuilderData::GPSData { .. }))));
}

#[test]
fn the_matcher_agrees_with_the_patterns_as_regular_expressions() {
    let gps = regex::Regex::new(
        r"^(\d{6})h(\d{2})(\d{2}\.\d{2})N[\\/](\d{3})(\d{2}\.\d{2})E\^(\d{3})/(\d{3})/A=(\d{6})",
    )
    .unwrap();
    let beacon = regex::Regex::new(r"id([0-9A-Fa-f]{8})").unwrap();
    let mut tokens: Vec<String> = CANONICAL.split_whitespace().map(String::from).collect();
    let position = tokens[0].split(":/").nth(1).unwrap().to_string();
    tokens.push(position.clone());
    for cut in 0..position.len() {
        tokens.push(position[..cut].to_string());
        let mut spoiled = position.clone().into_bytes();
        spoiled[cut] = b'x';
        tokens.push(String::from_utf8(spoiled).unwrap());
        let mut digit = position.clone().into_bytes();
        digit[cut] = b'7';
        tokens.push(String::from_utf8(digit).unwrap());
    }
    for extra in ["idABCDEF01", "xid0123456", "id0123456789", "iid00000000", "id-0000000", "dddid1234567f"] {
        tokens.push(extra.to_string());
    }
    for token in tokens {
        let extracted = extract_data_on(&token, 719_163);
        if let Some(found) = gps.captures(&token) {
            let number = |i: usize| found.get(i).unwrap().as_str().parse::<f64>().unwrap();
            match extracted {
                Ok(Some(AircraftBuilderData::GPSData { latitude, longitude, ground_track, ground_speed, gps_altitude, .. })) => {
                    assert_eq!(decimal_degrees(latitude), number(2) + number(3) / 60.0);
                    assert_eq!(decimal_degrees(longitude), number(4) + number(5) / 60.0);
                    assert_eq!(ground_track as f64, number(6));
                    assert_eq!(ground_speed as f64, number(7));
                    assert_eq!(gps_altitude as f64, number(8));
                }
                Err(_) => {
                    assert!(chrono::NaiveTime::parse_from_str(found.get(1).unwrap().as_str(), "%H%M%S").is_err());
                }
                other => panic!("token {:?}: expected a position, got {:?}", token, other),
            }
        } else if let Some(found) = beacon.captures(&token) {
            let digits = found.get(1).unwrap().as_str();
            let expected = digits.parse::<OGNBeaconID>().ok().unwrap();
            assert_eq!(extracted, Ok(Some(AircraftBuilderData::OGNBeaconIDData(expected))));
            assert_eq!(expected.icao_address.value(), u32::from_str_radix(&digits[2..], 16).unwrap());
        } else {
            assert_eq!(extracted, Ok(None), "token {:?}", token);
        }
    }
}

#[test]
fn lines_are_decoded_in_their_order_and_refused_lines_move_nothing() {
    let line = |callsign: &str, address: &str| {
        format!("{}>X:/102100h4938.77N/00848.62E^129/435/A=035443 id00{}", callsign, address)
    };
    let lines = vec![
        line("one", "000001"),
        String::from("# aprsc 2.1.4"),
        line("two", "000002"),
        String::from("noise>X:/nothing here"),
        String::from(""),
        line("three", "000001"),
        String::from("bad>X:/250000h4938.77N/00848.62E^129/435/A=035443 id00000009"),
        line("four", "000004"),
    ];
    let reports = parse_lines(&lines, 719_163);
    let callsigns: Vec<&str> = reports.iter().map(|a| a.callsign.as_str()).collect();
    assert_eq!(callsigns, vec!["one", "two", "three", "four"]);
    let one_by_one: Vec<Aircraft> =
        lines.iter().filter_map(|l| build_aircraft_on(l, 719_163).ok()).collect();
    assert_eq!(reports, one_by_one);
}

#[test]
fn a_builder_asks_for_its_fields_in_order() {
    let mut builder = AircraftBuilder::new();
    assert_eq!(builder.build(), Err(AircraftBuildError::MissingCallsign));
    builder.callsign = Some(String::from("c"));
    assert_eq!(builder.build(), Err(AircraftBuildError::MissingICAOAddress));
    builder.icao_address = Some(ICAOAddress::new(5).unwrap());
    assert_eq!(builder.build(), Err(AircraftBuildError::MissingTime));
    builder.time = Some(Timestamp::new(1, 2));
    assert_eq!(builder.build(), Err(AircraftBuildError::MissingLatitude));
    builder.latitude = Some(Coordinate { degrees: 1, minute_hundredths: 2 });
    assert_eq!(builder.build(), Err(AircraftBuildError::MissingLongitude));
    builder.longitude = Some(Coordinate { degrees: 3, minute_hundredths: 4 });
    assert_eq!(builder.build(), Err(AircraftBuildError::MissingGroundTrack));
    builder.ground_track = Some(5);
    assert_eq!(builder.build(), Err(AircraftBuildError::MissingGroundSpeed));
    builder.ground_speed = Some(6);
    assert_eq!(builder.build(), Err(AircraftBuildError::MissingGPSAltitude));
    builder.gps_altitude = Some(7);
    assert_eq!(
        builder.build(),
        Ok(Aircraft {
            callsign: String::from("c"),
            icao_address: ICAOAddress::new(5).unwrap(),
            datetime: Timestamp::new(1, 2),
            latitude: Coordinate { degrees: 1, minute_hundredths: 2 },
            longitude: Coordinate { degrees: 3, minute_hundredths: 4 },
            ground_track: 5,
            ground_speed: 6,
            gps_altitude: 7,
        })
    );
    builder.callsign = Some(String::new());
    assert_eq!(builder.build(), Err(AircraftBuildError::MissingCallsign));
    builder.callsign = Some(String::from("cé"));
    assert_eq!(builder.build(), Err(AircraftBuildError::MissingCallsign));
    let fresh = AircraftBuilder::default();
    assert!(fresh.callsign.is_none() && fresh.gps_altitude.is_none());
}

#[test]
fn a_builder_records_what_a_token_gave() {
    let mut builder = AircraftBuilder::new();
    builder.record(None);
    assert!(builder.time.is_none() && builder.icao_address.is_none());
    builder.record(extract_data_on("id25407F7A", 1).unwrap());
    assert_eq!(builder.icao_address, Some(ICAOAddress::new(0x407F7A).unwrap()));
    assert!(builder.time.is_none());
    builder.record(extract_data_on("102100h4938.77N/00848.62E^129/435/A=035443", 719_163).unwrap());
    assert_eq!(builder.time, Some(Timestamp::new(37_260, 0)));
    assert_eq!(builder.gps_altitude, Some(35443));
    assert_eq!(builder.icao_address, Some(ICAOAddress::new(0x407F7A).unwrap()));
    assert!(builder.callsign.is_none());
}
