use flights::airspace::Airspace;
use flights::types::{Aircraft, Coordinate, ICAOAddress, Timestamp};

fn timestamp_of(datetime: chrono::DateTime<chrono::Utc>) -> Timestamp {
    Timestamp::new(datetime.timestamp(), datetime.timestamp_subsec_nanos())
}

fn create_dummy_aircraft_at_time(
    datetime: chrono::DateTime<chrono::Utc>,
    icao_address: ICAOAddress,
) -> Aircraft {
    Aircraft {
        callsign: String::from("dummy"),
        icao_address,
        datetime: timestamp_of(datetime),
        latitude: Coordinate { degrees: 0, minute_hundredths: 0 },
        longitude: Coordinate { degrees: 0, minute_hundredths: 0 },
        ground_track: 0,
        ground_speed: 0,
        gps_altitude: 0,
    }
}

fn to_datetime(time_string: &str) -> chrono::DateTime<chrono::Utc> {
    let today = chrono::Local::now().date_naive();
    let time = chrono::NaiveTime::parse_from_str(time_string, "%H:%M:%S")
        .expect("time string not in %H:%M:%S format");
    today.and_time(time).and_utc()
}

fn report(address: u32, seconds: i64, callsign: &str) -> Aircraft {
    Aircraft {
        callsign: String::from(callsign),
        icao_address: ICAOAddress::new(address).unwrap(),
        datetime: Timestamp::new(seconds, 0),
        latitude: Coordinate { degrees: 1, minute_hundredths: 2 },
        longitude: Coordinate { degrees: 3, minute_hundredths: 4 },
        ground_track: 5,
        ground_speed: 6,
        gps_altitude: 7,
    }
}

fn seconds_of(airspace: &Airspace, address: u32) -> Vec<i64> {
    airspace
        .get_history(ICAOAddress::new(address).unwrap())
        .map(|history| history.iter().map(|aircraft| aircraft.datetime.seconds).collect())
        .unwrap_or_default()
}

fn callsigns_of(airspace: &Airspace, address: u32) -> Vec<String> {
    airspace
        .get_history(ICAOAddress::new(address).unwrap())
        .map(|history| history.iter().map(|aircraft| aircraft.callsign.clone()).collect())
        .unwrap_or_default()
}

/// An airspace that holds `existing` for one aircraft, as it stood before
/// the update under test.
fn airspace_with(existing: Vec<Aircraft>, now: chrono::DateTime<chrono::Utc>) -> Airspace {
    let mut airspace = Airspace::new_at(5, timestamp_of(to_datetime("00:01:00")));
    airspace.update_at(timestamp_of(now), existing);
    airspace
}

#[test]
fn when_adding_aircrafts_to_empty_entries_then_correct_histories_are_created() {
    let now_datetime = chrono::Utc::now();
    let mut airspace = Airspace::new_at(5, timestamp_of(now_datetime));

    let expected_aircraft_1_icao_address = ICAOAddress::new(0).unwrap();
    let expected_aircraft_1_datetime = now_datetime - chrono::TimeDelta::seconds(1);

    let expected_aircraft_2_icao_address = ICAOAddress::new(1).unwrap();
    let expected_aircraft_2_datetime = now_datetime - chrono::TimeDelta::seconds(1);

    let aircrafts = vec![
        create_dummy_aircraft_at_time(expected_aircraft_1_datetime, expected_aircraft_1_icao_address),
        create_dummy_aircraft_at_time(expected_aircraft_2_datetime, expected_aircraft_2_icao_address),
    ];

    airspace.update(aircrafts);

    assert_eq!(airspace.icao_to_aircraft_mapping().len(), 2);

    let aircraft_1_history = airspace
        .get_history(expected_aircraft_1_icao_address)
        .expect("expected a VecDeque for aircraft 1");
    assert_eq!(aircraft_1_history.len(), 1);
    assert_eq!(aircraft_1_history[0].datetime, timestamp_of(expected_aircraft_1_datetime));

    let aircraft_2_history = airspace
        .get_history(expected_aircraft_2_icao_address)
        .expect("expected a VecDeque for aircraft 1");
    assert_eq!(aircraft_2_history.len(), 1);
    assert_eq!(aircraft_2_history[0].datetime, timestamp_of(expected_aircraft_2_datetime));
}

#[test]
fn and_aircraft_timestamp_is_newest_then_correct_order_is_added() {
    let now = chrono::Utc::now();
    let aircraft_icao_address = ICAOAddress::new(0).unwrap();
    let time_a = now - chrono::TimeDelta::seconds(3);
    let time_b = now - chrono::TimeDelta::seconds(2);
    let time_c = now - chrono::TimeDelta::seconds(1);

    let mut airspace = airspace_with(
        vec![
            create_dummy_aircraft_at_time(time_a, aircraft_icao_address),
            create_dummy_aircraft_at_time(time_b, aircraft_icao_address),
        ],
        now,
    );
    let new_data = vec![create_dummy_aircraft_at_time(time_c, aircraft_icao_address)];

    airspace.update(new_data);

    let history = airspace.get_history(aircraft_icao_address).expect("expected to have history");

    assert_eq!(history.len(), 3);
    assert_eq!(history[2].datetime, timestamp_of(time_c));
}

#[test]
fn and_aircraft_timestamp_is_oldest_then_correct_order_is_added() {
    let now = chrono::Utc::now();
    let aircraft_icao_address = ICAOAddress::new(0).unwrap();
    let time_a = now - chrono::TimeDelta::seconds(2);
    let time_b = now - chrono::TimeDelta::seconds(1);
    let time_c = now;

    let mut airspace = airspace_with(
        vec![
            create_dummy_aircraft_at_time(time_b, aircraft_icao_address),
            create_dummy_aircraft_at_time(time_c, aircraft_icao_address),
        ],
        now,
    );
    let new_data = vec![create_dummy_aircraft_at_time(time_a, aircraft_icao_address)];

    airspace.update(new_data);

    let history = airspace.get_history(aircraft_icao_address).expect("expected to have history");

    assert_eq!(history.len(), 3);
    assert_eq!(history[2].datetime, timestamp_of(time_c));
    assert_eq!(history[0].datetime, timestamp_of(time_a));
}

#[test]
fn and_aircraft_timestamp_is_somewhere_in_between_then_correct_order_is_added() {
    let now = chrono::Utc::now();

    let aircraft_icao_address = ICAOAddress::new(0).unwrap();
    let time_a = now - chrono::TimeDelta::seconds(3);
    let time_b = now - chrono::TimeDelta::seconds(2);
    let time_c = now - chrono::TimeDelta::seconds(1);
    let time_d = now;

    let mut airspace = airspace_with(
        vec![
            create_dummy_aircraft_at_time(time_a, aircraft_icao_address),
            create_dummy_aircraft_at_time(time_b, aircraft_icao_address),
            create_dummy_aircraft_at_time(time_d, aircraft_icao_address),
        ],
        now,
    );
    let new_data = vec![create_dummy_aircraft_at_time(time_c, aircraft_icao_address)];

    airspace.update(new_data);

    let history = airspace.get_history(aircraft_icao_address).expect("expected to have history");

    assert_eq!(history.len(), 4);
    assert_eq!(history[2].datetime, timestamp_of(time_c));
}

#[test]
fn a_new_airspace_is_empty_and_stamped_by_the_clock() {
    let before = chrono::Utc::now().timestamp();
    let airspace = Airspace::new(5);
    let after = chrono::Utc::now().timestamp();
    assert!(airspace.icao_to_aircraft_mapping().is_empty());
    assert_eq!(airspace.buffer_duration(), 5);
    assert!(before <= airspace.get_datetime().seconds);
    assert!(airspace.get_datetime().seconds <= after);
    assert!(airspace.get_datetime().nanos < 1_000_000_000);
}

#[test]
fn update_stamps_the_airspace_by_the_clock() {
    let mut airspace = Airspace::new_at(5, Timestamp::new(12, 34));
    assert_eq!(airspace.get_datetime(), Timestamp::new(12, 34));
    let before = chrono::Utc::now().timestamp();
    airspace.update(vec![]);
    let after = chrono::Utc::now().timestamp();
    assert!(before <= airspace.get_datetime().seconds);
    assert!(airspace.get_datetime().seconds <= after);
}

#[test]
fn out_of_order_report_goes_between_its_neighbours() {
    let t = 1_000;
    let mut airspace = Airspace::new_at(5, Timestamp::new(t, 0));
    airspace.update_at(
        Timestamp::new(t, 0),
        vec![report(0, t - 3, "a"), report(0, t - 2, "b"), report(0, t, "d")],
    );
    assert_eq!(seconds_of(&airspace, 0), vec![t - 3, t - 2, t]);
    airspace.update_at(Timestamp::new(t, 0), vec![report(0, t - 1, "c")]);
    assert_eq!(seconds_of(&airspace, 0), vec![t - 3, t - 2, t - 1, t]);
    assert_eq!(callsigns_of(&airspace, 0), vec!["a", "b", "c", "d"]);
}

#[test]
fn update_prunes_what_has_left_the_window() {
    let now = 1_000;
    let mut airspace = Airspace::new_at(5, Timestamp::new(now - 10, 0));
    airspace.update_at(
        Timestamp::new(now - 10, 0),
        vec![report(9, now - 10, "x"), report(9, now - 3, "y"), report(9, now - 1, "z")],
    );
    assert_eq!(seconds_of(&airspace, 9), vec![now - 10, now - 3, now - 1]);
    airspace.update_at(Timestamp::new(now, 0), vec![]);
    assert_eq!(seconds_of(&airspace, 9), vec![now - 3, now - 1]);
    assert_eq!(airspace.get_datetime(), Timestamp::new(now, 0));
}

#[test]
fn a_history_that_is_pruned_empty_stays_in_the_map() {
    let mut airspace = Airspace::new_at(5, Timestamp::new(0, 0));
    airspace.update_at(Timestamp::new(0, 0), vec![report(3, 0, "x")]);
    airspace.update_at(Timestamp::new(100, 0), vec![]);
    let history = airspace.get_history(ICAOAddress::new(3).unwrap()).expect("the entry stays");
    assert!(history.is_empty());
    assert_eq!(airspace.icao_to_aircraft_mapping().len(), 1);
}

#[test]
fn a_report_older_than_the_window_is_dropped() {
    let now = 1_000;
    let mut airspace = Airspace::new_at(5, Timestamp::new(now, 0));
    airspace.update_at(Timestamp::new(now, 0), vec![report(4, now - 10, "old")]);
    assert!(seconds_of(&airspace, 4).is_empty());
    assert!(airspace.get_history(ICAOAddress::new(4).unwrap()).is_none());
    assert!(airspace.icao_to_aircraft_mapping().is_empty());
}

#[test]
fn the_edge_of_the_window_is_inside() {
    let now = Timestamp::new(1_000, 500);
    let mut airspace = Airspace::new_at(5, now);
    let mut on_edge = report(4, 995, "edge");
    on_edge.datetime = Timestamp::new(995, 500);
    let mut just_out = report(4, 995, "out");
    just_out.datetime = Timestamp::new(995, 499);
    airspace.update_at(now, vec![just_out, on_edge]);
    assert_eq!(callsigns_of(&airspace, 4), vec!["edge"]);
}

#[test]
fn the_order_of_a_batch_does_not_change_the_instants() {
    let now = Timestamp::new(100, 0);
    let batch = vec![
        report(1, 99, "a"),
        report(2, 97, "b"),
        report(1, 96, "c"),
        report(1, 99, "d"),
        report(2, 98, "e"),
        report(1, 90, "gone"),
        report(1, 98, "f"),
    ];
    let orders: Vec<Vec<usize>> = vec![
        vec![0, 1, 2, 3, 4, 5, 6],
        vec![6, 5, 4, 3, 2, 1, 0],
        vec![3, 0, 6, 2, 5, 1, 4],
        vec![1, 4, 0, 5, 3, 6, 2],
    ];
    for order in orders {
        let permuted: Vec<Aircraft> = order.iter().map(|&i| batch[i].clone()).collect();
        let mut airspace = Airspace::new_at(5, now);
        airspace.update_at(now, permuted);
        assert_eq!(seconds_of(&airspace, 1), vec![96, 98, 99, 99]);
        assert_eq!(seconds_of(&airspace, 2), vec![97, 98]);
        let mut callsigns = callsigns_of(&airspace, 1);
        callsigns.sort();
        assert_eq!(callsigns, vec!["a", "c", "d", "f"]);
        assert_eq!(airspace.icao_to_aircraft_mapping().len(), 2);
    }
}

#[test]
fn reports_of_one_instant_keep_the_rule_of_their_place() {
    // A batch is taken in in its own order. A report as new as the newest
    // goes behind it; one that is older than the newest goes before its
    // equals.
    let now = Timestamp::new(100, 0);
    let mut airspace = Airspace::new_at(5, now);
    airspace.update_at(now, vec![report(1, 99, "first"), report(1, 99, "second"), report(1, 99, "third")]);
    assert_eq!(callsigns_of(&airspace, 1), vec!["first", "second", "third"]);
    airspace.update_at(now, vec![report(1, 100, "last")]);
    airspace.update_at(now, vec![report(1, 99, "late")]);
    assert_eq!(callsigns_of(&airspace, 1), vec!["late", "first", "second", "third", "last"]);
    airspace.update_at(now, vec![report(2, 100, "x"), report(2, 99, "y"), report(2, 99, "z")]);
    assert_eq!(callsigns_of(&airspace, 2), vec!["z", "y", "x"]);
}

#[test]
fn two_reports_of_one_instant_stay_in_the_order_of_their_batch() {
    let now = chrono::Utc::now();
    let address = ICAOAddress::new(0).unwrap();
    let mut a = create_dummy_aircraft_at_time(now - chrono::TimeDelta::seconds(1), address);
    a.callsign = String::from("a");
    let mut b = create_dummy_aircraft_at_time(now - chrono::TimeDelta::seconds(1), address);
    b.callsign = String::from("b");
    let mut airspace = Airspace::new(5);
    airspace.update(vec![a, b]);
    assert_eq!(callsigns_of(&airspace, 0), vec!["a", "b"]);
}

#[test]
fn a_batch_in_the_order_of_time_is_appended_as_it_stands() {
    let now = Timestamp::new(100, 0);
    let mut airspace = Airspace::new_at(5, now);
    airspace.update_at(
        now,
        vec![report(7, 96, "a"), report(7, 97, "b"), report(7, 97, "c"), report(7, 99, "d")],
    );
    assert_eq!(callsigns_of(&airspace, 7), vec!["a", "b", "c", "d"]);
    assert_eq!(seconds_of(&airspace, 7), vec![96, 97, 97, 99]);
}

#[test]
fn every_history_stays_in_order_and_in_the_window() {
    let mut airspace = Airspace::new_at(10, Timestamp::new(0, 0));
    let mut seed: u64 = 7;
    for round in 0..50i64 {
        let now = round * 3;
        let mut batch = Vec::new();
        for _ in 0..20 {
            seed = seed.wrapping_mul(6364136223846793005).wrapping_add(1442695040888963407);
            let address = ((seed >> 33) % 5) as u32;
            let age = ((seed >> 40) % 15) as i64;
            batch.push(report(address, now - age, "r"));
        }
        airspace.update_at(Timestamp::new(now, 0), batch);
        for (address, history) in airspace.icao_to_aircraft_mapping() {
            let instants: Vec<i64> = history.iter().map(|a| a.datetime.seconds).collect();
            assert!(instants.windows(2).all(|pair| pair[0] <= pair[1]));
            assert!(instants.iter().all(|&t| t >= now - 10));
            assert!(history.iter().all(|a| a.icao_address.value() == *address));
        }
    }
}
