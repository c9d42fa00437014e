//! From one line of the feed to one aircraft report.

use crate::clock::{
    instant_on_day, local_today, nanos_of_second, parse_time_of_day, seconds_since_midnight,
    timestamp_on_day, valid_clock,
};
use crate::hex::{all_hex, hex_value, is_hex_digit};
use crate::parser::grammar::{
    beacon_at, beacon_position, blank_end, find, find_beacon, find_pair, gps_fields,
    is_gps_token, decimal_value, lemma_decimal_value_bound, lemma_digits_between, match_gps, position_of,
    position_of_pair, pow10, skip_blank, skip_token, token_end, GpsFields, BODY_START,
    CALLSIGN_DELIMITER, HEADER_END,
};
use crate::parser::types::OGNBeaconID;
use crate::text::chars_of;
use crate::types::{
    callsign_is_valid, is_callsign, Aircraft, AircraftView, Coordinate, ICAOAddress, Timestamp,
};
use vstd::prelude::*;
use vstd::string::StrSliceExecFns;

verus! {

/// Why a line is no message, with a word on it.
#[derive(Debug, PartialEq, Eq)]
pub enum InvalidMessageError {
    /// The line lacks the end of its callsign or of its header.
    InvalidFormat(String),
    /// A position report has a time that no clock shows.
    InvalidTimeFormat(String),
    MissingHeaderOrBodyError(String),
    MissingCapture(String),
}

/// Why a line gives no report.
#[derive(Debug, PartialEq, Eq)]
pub enum AircraftBuildError {
    MissingCallsign,
    MissingICAOAddress,
    MissingTime,
    MissingLatitude,
    MissingLongitude,
    MissingGroundTrack,
    MissingGroundSpeed,
    MissingGPSAltitude,
    InvalidMessage(InvalidMessageError),
}

/// What one token of a body adds to a report.
#[derive(Debug, PartialEq, Eq, Clone, Copy, Structural)]
pub enum AircraftBuilderData {
    GPSData {
        time: Timestamp,
        latitude: Coordinate,
        longitude: Coordinate,
        ground_track: u16,
        ground_speed: u16,
        gps_altitude: u32,
    },
    OGNBeaconIDData(OGNBeaconID),
}

/// What a position report says of an aircraft.
#[derive(Debug, PartialEq, Eq, Clone, Copy, Structural)]
pub struct Position {
    pub time: Timestamp,
    pub latitude: Coordinate,
    pub longitude: Coordinate,
    pub ground_track: u16,
    pub ground_speed: u16,
    pub gps_altitude: u32,
}

/// Whether the time of day in a position token is one that a clock can show.
pub open spec fn has_valid_time(fields: GpsFields) -> bool {
    valid_clock(fields.hour as int, fields.minute as int, fields.second as int)
}

/// The instant at which a position token was sent, when its day is `today`.
pub open spec fn gps_time(fields: GpsFields, today: i32) -> Timestamp {
    instant_on_day(
        today,
        seconds_since_midnight(fields.hour as int, fields.minute as int, fields.second as int) as u32,
        nanos_of_second(fields.second as int) as u32,
    )
}

/// What a position token adds to a report, when its day is `today`.
pub open spec fn gps_data(fields: GpsFields, today: i32) -> AircraftBuilderData {
    let position = gps_position(fields, today);
    AircraftBuilderData::GPSData {
        time: position.time,
        latitude: position.latitude,
        longitude: position.longitude,
        ground_track: position.ground_track,
        ground_speed: position.ground_speed,
        gps_altitude: position.gps_altitude,
    }
}

/// What a position token says of an aircraft, when its day is `today`:
/// latitude and longitude as degrees and hundredths of a minute, the track
/// in degrees, the speed in knots and the altitude in feet.
pub open spec fn gps_position(fields: GpsFields, today: i32) -> Position {
    Position {
        time: gps_time(fields, today),
        latitude: Coordinate {
            degrees: fields.latitude_degrees as u16,
            minute_hundredths: fields.latitude_minute_hundredths as u16,
        },
        longitude: Coordinate {
            degrees: fields.longitude_degrees as u16,
            minute_hundredths: fields.longitude_minute_hundredths as u16,
        },
        ground_track: fields.ground_track as u16,
        ground_speed: fields.ground_speed as u16,
        gps_altitude: fields.gps_altitude,
    }
}

/// The address in the first identifier pattern of the token `t`: the last
/// six of its eight digits.
pub open spec fn beacon_address(t: Seq<char>) -> Option<u32> {
    match beacon_position(t, 0) {
        Some(at) => Some(hex_value(t.subrange(at + 4, at + 10)) as u32),
        None => None,
    }
}

/// Whether `extracted` is what the token `t` holds. The position pattern is
/// tried first, at the start of the token; then the identifier pattern,
/// anywhere in it. A position whose time no clock can show is an error; a
/// token that matches neither pattern holds nothing.
pub open spec fn token_yields(
    t: Seq<char>,
    today: i32,
    extracted: Result<Option<AircraftBuilderData>, AircraftBuildError>,
) -> bool {
    if is_gps_token(t) {
        if has_valid_time(gps_fields(t)) {
            extracted == Ok::<Option<AircraftBuilderData>, AircraftBuildError>(
                Some(gps_data(gps_fields(t), today)),
            )
        } else {
            extracted matches Err(
                AircraftBuildError::InvalidMessage(InvalidMessageError::InvalidTimeFormat(_)),
            )
        }
    } else {
        match beacon_position(t, 0) {
            Some(at) => extracted matches Ok(Some(AircraftBuilderData::OGNBeaconIDData(id)))
                && id.reads(t.subrange(at + 2, at + 10)),
            None => extracted == Ok::<Option<AircraftBuilderData>, AircraftBuildError>(None),
        }
    }
}

/// Reads the token `chars[from..to]` of `line`.
fn extract_token(line: &str, chars: &Vec<char>, from: usize, to: usize, today: i32) -> (extracted:
    Result<Option<AircraftBuilderData>, AircraftBuildError>)
    requires
        chars@ == line@,
        from <= to <= chars.len(),
    ensures
        token_yields(chars@.subrange(from as int, to as int), today, extracted),
{
    let ghost t = chars@.subrange(from as int, to as int);
    if let Some(fields) = match_gps(chars, from, to) {
        let clock = line.substring_char(from, from + 6);
        proof {
            assert(clock@ == t.subrange(0, 6));
            lemma_digits_between(t, 0, 6);
            assert(clock@.subrange(0, 2) == t.subrange(0, 2));
            assert(clock@.subrange(2, 4) == t.subrange(2, 4));
            assert(clock@.subrange(4, 6) == t.subrange(4, 6));
            lemma_field_ranges(t);
        }
        match parse_time_of_day(clock) {
            Ok((seconds, nanos)) => {
                Ok(
                    Some(
                        AircraftBuilderData::GPSData {
                            time: timestamp_on_day(today, seconds, nanos),
                            latitude: Coordinate {
                                degrees: fields.latitude_degrees as u16,
                                minute_hundredths: fields.latitude_minute_hundredths as u16,
                            },
                            longitude: Coordinate {
                                degrees: fields.longitude_degrees as u16,
                                minute_hundredths: fields.longitude_minute_hundredths as u16,
                            },
                            ground_track: fields.ground_track as u16,
                            ground_speed: fields.ground_speed as u16,
                            gps_altitude: fields.gps_altitude,
                        },
                    ),
                )
            },
            Err(e) => Err(
                AircraftBuildError::InvalidMessage(
                    InvalidMessageError::InvalidTimeFormat(e.to_string()),
                ),
            ),
        }
    } else {
        match find_beacon(chars, from, to) {
            Some(at) => {
                assert(chars@.subrange(at + 2, at + 10) == t.subrange(
                    at - from + 2,
                    at - from + 10,
                ));
                match OGNBeaconID::from_digits(chars, at + 2) {
                    Ok(id) => Ok(Some(AircraftBuilderData::OGNBeaconIDData(id))),
                    Err(_) => {
                        // Not reached: the eight digits are hexadecimal.
                        proof {
                            lemma_beacon_digits(t, at - from);
                        }
                        Ok(None)
                    },
                }
            },
            None => Ok(None),
        }
    }
}

/// Reads one token of a body: a position report, a beacon identifier, or
/// nothing. `today` numbers the day of the report as the calendar does that
/// counts 1 January of the year 1 as day 1.
pub fn extract_data_on(string: &str, today: i32) -> (extracted: Result<
    Option<AircraftBuilderData>,
    AircraftBuildError,
>)
    ensures
        token_yields(string@, today, extracted),
{
    let chars = chars_of(string);
    assert(chars@.subrange(0, chars.len() as int) == string@);
    extract_token(string, &chars, 0, chars.len(), today)
}

/// Reads one token of a body, taking the day from the local calendar.
pub fn extract_data_from_string(string: &str) -> (extracted: Result<
    Option<AircraftBuilderData>,
    AircraftBuildError,
>)
    ensures
        exists|today: i32| token_yields(string@, today, extracted),
{
    let today = local_today();
    extract_data_on(string, today)
}

/// Gathers the fields of a report, one token after the other.
#[derive(Debug)]
pub struct AircraftBuilder {
    pub callsign: Option<String>,
    pub icao_address: Option<ICAOAddress>,
    pub time: Option<Timestamp>,
    pub latitude: Option<Coordinate>,
    pub longitude: Option<Coordinate>,
    pub ground_track: Option<u16>,
    pub ground_speed: Option<u16>,
    pub gps_altitude: Option<u32>,
}

impl AircraftBuilder {
    /// The first field that is not there, in the order in which `build` asks
    /// for them. A callsign that is empty or not ASCII is none.
    pub open spec fn first_missing(self) -> Option<AircraftBuildError> {
        if self.callsign is None || !is_callsign(self.callsign->0@) {
            Some(AircraftBuildError::MissingCallsign)
        } else if self.icao_address is None {
            Some(AircraftBuildError::MissingICAOAddress)
        } else if self.time is None {
            Some(AircraftBuildError::MissingTime)
        } else if self.latitude is None {
            Some(AircraftBuildError::MissingLatitude)
        } else if self.longitude is None {
            Some(AircraftBuildError::MissingLongitude)
        } else if self.ground_track is None {
            Some(AircraftBuildError::MissingGroundTrack)
        } else if self.ground_speed is None {
            Some(AircraftBuildError::MissingGroundSpeed)
        } else if self.gps_altitude is None {
            Some(AircraftBuildError::MissingGPSAltitude)
        } else {
            None
        }
    }

    /// The report that the fields make, when all are there.
    pub open spec fn assembled(self) -> Aircraft {
        Aircraft {
            callsign: self.callsign->0,
            icao_address: self.icao_address->0,
            datetime: self.time->0,
            latitude: self.latitude->0,
            longitude: self.longitude->0,
            ground_track: self.ground_track->0,
            ground_speed: self.ground_speed->0,
            gps_altitude: self.gps_altitude->0,
        }
    }

    /// The builder that holds no field yet.
    pub open spec fn blank() -> AircraftBuilder {
        AircraftBuilder {
            callsign: None,
            icao_address: None,
            time: None,
            latitude: None,
            longitude: None,
            ground_track: None,
            ground_speed: None,
            gps_altitude: None,
        }
    }

    pub fn new() -> (builder: AircraftBuilder)
        ensures
            builder == AircraftBuilder::blank(),
    {
        AircraftBuilder {
            callsign: None,
            icao_address: None,
            time: None,
            latitude: None,
            longitude: None,
            ground_track: None,
            ground_speed: None,
            gps_altitude: None,
        }
    }

    /// The report, if every field is there; else the error of the first
    /// that is missing.
    pub fn build(&self) -> (built: Result<Aircraft, AircraftBuildError>)
        ensures
            built == match self.first_missing() {
                Some(missing) => Err::<Aircraft, AircraftBuildError>(missing),
                None => Ok(self.assembled()),
            },
            built matches Ok(aircraft) ==> is_callsign(aircraft.callsign@),
    {
        let callsign = match &self.callsign {
            Some(callsign) => {
                if !callsign_is_valid(callsign.as_str()) {
                    return Err(AircraftBuildError::MissingCallsign);
                }
                callsign.clone()
            },
            None => {
                return Err(AircraftBuildError::MissingCallsign);
            },
        };
        let icao_address = match self.icao_address {
            Some(address) => address,
            None => {
                return Err(AircraftBuildError::MissingICAOAddress);
            },
        };
        let time = match self.time {
            Some(time) => time,
            None => {
                return Err(AircraftBuildError::MissingTime);
            },
        };
        let latitude = match self.latitude {
            Some(latitude) => latitude,
            None => {
                return Err(AircraftBuildError::MissingLatitude);
            },
        };
        let longitude = match self.longitude {
            Some(longitude) => longitude,
            None => {
                return Err(AircraftBuildError::MissingLongitude);
            },
        };
        let ground_track = match self.ground_track {
            Some(ground_track) => ground_track,
            None => {
                return Err(AircraftBuildError::MissingGroundTrack);
            },
        };
        let ground_speed = match self.ground_speed {
            Some(ground_speed) => ground_speed,
            None => {
                return Err(AircraftBuildError::MissingGroundSpeed);
            },
        };
        let gps_altitude = match self.gps_altitude {
            Some(gps_altitude) => gps_altitude,
            None => {
                return Err(AircraftBuildError::MissingGPSAltitude);
            },
        };
        Ok(
            Aircraft {
                callsign,
                icao_address,
                datetime: time,
                latitude,
                longitude,
                ground_track,
                ground_speed,
                gps_altitude,
            },
        )
    }
}

impl Default for AircraftBuilder {
    fn default() -> (builder: Self)
        ensures
            builder == AircraftBuilder::blank(),
    {
        Self::new()
    }
}

/// What the tokens of a body have given so far: the address of the last
/// beacon identifier, and the last position report.
pub struct Gathered {
    pub address: Option<u32>,
    pub position: Option<Position>,
}

/// Whether the token `t` stops the reading of its line: it is a position
/// report whose time no clock can show.
pub open spec fn token_fails(t: Seq<char>) -> bool {
    is_gps_token(t) && !has_valid_time(gps_fields(t))
}

/// `so_far`, with what the token `t` adds: a later position replaces an
/// earlier one, a later address an earlier one.
pub open spec fn gather(so_far: Gathered, t: Seq<char>, today: i32) -> Gathered {
    if is_gps_token(t) {
        Gathered { address: so_far.address, position: Some(gps_position(gps_fields(t), today)) }
    } else if beacon_address(t) is Some {
        Gathered { address: beacon_address(t), position: so_far.position }
    } else {
        so_far
    }
}

/// What the tokens of `line` from `at` on give, added to `so_far`; `None`
/// where one of them fails. Tokens are what white space separates.
#[verifier::opaque]
pub open spec fn gather_tokens(line: Seq<char>, at: int, today: i32, so_far: Gathered) -> Option<
    Gathered,
>
    decreases line.len() - at,
{
    let start = blank_end(line, at);
    let end = token_end(line, start);
    if at < 0 || start < at || start >= line.len() || end <= start || end > line.len() {
        Some(so_far)
    } else if token_fails(line.subrange(start, end)) {
        None
    } else {
        gather_tokens(line, end, today, gather(so_far, line.subrange(start, end), today))
    }
}

/// What a line comes to.
pub enum LineVerdict {
    /// There is no `>` in the line.
    NoCallsign,
    /// There is no `:/` in the line.
    NoHeader,
    /// What stands before the first `>` is empty or not ASCII.
    MissingCallsign,
    /// A position report in the body has a time that no clock shows.
    InvalidTime,
    /// No token of the body is a beacon identifier.
    MissingAddress,
    /// No token of the body is a position report.
    MissingPosition,
    Report(AircraftView),
}

/// What the line `line` comes to on the day `today`.
///
/// A line without `>` and a line without `:/` are refused, in this order.
/// The callsign is what stands before the first `>`, and a line is refused
/// where that is empty or not ASCII. The body is what follows the first
/// `:/`. A token that fails refuses the line. Of the
/// tokens, the last beacon identifier gives the address and the last
/// position report the rest; a line without the one or the other is refused
/// for the address, then for the position.
pub open spec fn line_verdict(line: Seq<char>, today: i32) -> LineVerdict {
    let callsign_end = position_of(line, '>', 0);
    let header_end = position_of_pair(line, ':', '/', 0);
    if callsign_end >= line.len() {
        LineVerdict::NoCallsign
    } else if header_end >= line.len() {
        LineVerdict::NoHeader
    } else if !is_callsign(line.subrange(0, callsign_end)) {
        LineVerdict::MissingCallsign
    } else {
        match gather_tokens(line, header_end + 2, today, Gathered { address: None, position: None }) {
            None => LineVerdict::InvalidTime,
            Some(gathered) => match (gathered.address, gathered.position) {
                (None, _) => LineVerdict::MissingAddress,
                (Some(_), None) => LineVerdict::MissingPosition,
                (Some(address), Some(position)) => LineVerdict::Report(
                    AircraftView {
                        callsign: line.subrange(0, callsign_end),
                        icao_address: address,
                        datetime: position.time,
                        latitude: position.latitude,
                        longitude: position.longitude,
                        ground_track: position.ground_track,
                        ground_speed: position.ground_speed,
                        gps_altitude: position.gps_altitude,
                    },
                ),
            },
        }
    }
}

/// A line comes to a report only with a callsign: one that is not empty and
/// is ASCII.
pub proof fn lemma_report_has_callsign(line: Seq<char>, today: i32)
    ensures
        line_verdict(line, today) matches LineVerdict::Report(report) ==> is_callsign(
            report.callsign,
        ),
{
}

/// Whether `built` is how a line with the verdict `verdict` is answered: the
/// report, or the error that belongs to the refusal.
pub open spec fn answers(built: Result<Aircraft, AircraftBuildError>, verdict: LineVerdict) -> bool {
    match verdict {
        LineVerdict::NoCallsign => built matches Err(
            AircraftBuildError::InvalidMessage(InvalidMessageError::InvalidFormat(why)),
        ) && why@ == "No valid callsign"@,
        LineVerdict::NoHeader => built matches Err(
            AircraftBuildError::InvalidMessage(InvalidMessageError::InvalidFormat(why)),
        ) && why@ == "Cannot establish header"@,
        LineVerdict::MissingCallsign => built == Err::<Aircraft, AircraftBuildError>(
            AircraftBuildError::MissingCallsign,
        ),
        LineVerdict::InvalidTime => built matches Err(
            AircraftBuildError::InvalidMessage(InvalidMessageError::InvalidTimeFormat(_)),
        ),
        LineVerdict::MissingAddress => built == Err::<Aircraft, AircraftBuildError>(
            AircraftBuildError::MissingICAOAddress,
        ),
        LineVerdict::MissingPosition => built == Err::<Aircraft, AircraftBuildError>(
            AircraftBuildError::MissingTime,
        ),
        LineVerdict::Report(report) => built matches Ok(aircraft) && aircraft@ == report,
    }
}

impl AircraftBuilder {
    /// Whether the fields that tokens fill hold what `gathered` holds.
    pub open spec fn holds(self, gathered: Gathered) -> bool {
        &&& match gathered.address {
            Some(address) => self.icao_address matches Some(a) && a.spec_value() == address,
            None => self.icao_address is None,
        }
        &&& match gathered.position {
            Some(position) => {
                &&& self.time is Some
                &&& self.latitude is Some
                &&& self.longitude is Some
                &&& self.ground_track is Some
                &&& self.ground_speed is Some
                &&& self.gps_altitude is Some
                &&& position == Position {
                    time: self.time->0,
                    latitude: self.latitude->0,
                    longitude: self.longitude->0,
                    ground_track: self.ground_track->0,
                    ground_speed: self.ground_speed->0,
                    gps_altitude: self.gps_altitude->0,
                }
            },
            None => {
                &&& self.time is None
                &&& self.latitude is None
                &&& self.longitude is None
                &&& self.ground_track is None
                &&& self.ground_speed is None
                &&& self.gps_altitude is None
            },
        }
    }
}

impl AircraftBuilder {
    /// Takes over what a token gave: a position fills the six fields of a
    /// position, an identifier gives the address, and nothing changes
    /// nothing.
    pub fn record(&mut self, data: Option<AircraftBuilderData>)
        ensures
            *final(self) == old(self).with(data),
    {
        match data {
            Some(
                AircraftBuilderData::GPSData {
                    time,
                    latitude,
                    longitude,
                    ground_track,
                    ground_speed,
                    gps_altitude,
                },
            ) => {
                self.time = Some(time);
                self.latitude = Some(latitude);
                self.longitude = Some(longitude);
                self.ground_track = Some(ground_track);
                self.ground_speed = Some(ground_speed);
                self.gps_altitude = Some(gps_altitude);
            },
            Some(AircraftBuilderData::OGNBeaconIDData(id)) => {
                self.icao_address = Some(id.icao_address);
            },
            None => {},
        }
    }

    /// The builder after it has taken over `data`.
    pub open spec fn with(self, data: Option<AircraftBuilderData>) -> AircraftBuilder {
        match data {
            Some(
                AircraftBuilderData::GPSData {
                    time,
                    latitude,
                    longitude,
                    ground_track,
                    ground_speed,
                    gps_altitude,
                },
            ) => AircraftBuilder {
                callsign: self.callsign,
                icao_address: self.icao_address,
                time: Some(time),
                latitude: Some(latitude),
                longitude: Some(longitude),
                ground_track: Some(ground_track),
                ground_speed: Some(ground_speed),
                gps_altitude: Some(gps_altitude),
            },
            Some(AircraftBuilderData::OGNBeaconIDData(id)) => AircraftBuilder {
                callsign: self.callsign,
                icao_address: Some(id.icao_address),
                time: self.time,
                latitude: self.latitude,
                longitude: self.longitude,
                ground_track: self.ground_track,
                ground_speed: self.ground_speed,
                gps_altitude: self.gps_altitude,
            },
            None => self,
        }
    }
}

/// Where `beacon_position` finds the identifier pattern, the pattern stands.
pub proof fn lemma_beacon_position(t: Seq<char>, from: int)
    ensures
        beacon_position(t, from) matches Some(at) ==> from <= at && beacon_at(t, at),
    decreases t.len() - from,
{
    if !(from < 0 || from + 10 > t.len()) && !beacon_at(t, from) {
        lemma_beacon_position(t, from + 1);
    }
}

/// A builder that records what a token yields holds what the tokens so far
/// have given.
proof fn lemma_record_holds(
    before: AircraftBuilder,
    after: AircraftBuilder,
    data: Option<AircraftBuilderData>,
    gathered: Gathered,
    t: Seq<char>,
    today: i32,
)
    requires
        before.holds(gathered),
        token_yields(t, today, Ok(data)),
        after == before.with(data),
    ensures
        after.holds(gather(gathered, t, today)),
        after.callsign == before.callsign,
        !token_fails(t),
{
    if !is_gps_token(t) {
        lemma_beacon_position(t, 0);
        match beacon_position(t, 0) {
            Some(at) => {
                let digits = t.subrange(at + 2, at + 10);
                assert(digits.subrange(2, 8) == t.subrange(at + 4, at + 10));
            },
            None => {},
        }
    }
}

/// One step of `gather_tokens`, for a token that is there.
proof fn lemma_gather_step(line: Seq<char>, at: int, today: i32, so_far: Gathered)
    requires
        0 <= at <= blank_end(line, at) < line.len(),
        blank_end(line, at) < token_end(line, blank_end(line, at)) <= line.len(),
    ensures
        gather_tokens(line, at, today, so_far) == ({
            let start = blank_end(line, at);
            let end = token_end(line, start);
            if token_fails(line.subrange(start, end)) {
                None
            } else {
                gather_tokens(line, end, today, gather(so_far, line.subrange(start, end), today))
            }
        }),
{
    reveal(gather_tokens);
}

/// The end of `gather_tokens`: only white space is left.
proof fn lemma_gather_end(line: Seq<char>, at: int, today: i32, so_far: Gathered)
    requires
        blank_end(line, at) >= line.len(),
    ensures
        gather_tokens(line, at, today, so_far) == Some(so_far),
{
    reveal(gather_tokens);
}

/// A token yields an error only where it fails, and the error is that of a
/// time that no clock shows.
proof fn lemma_token_error(t: Seq<char>, today: i32, e: AircraftBuildError)
    requires
        token_yields(t, today, Err(e)),
    ensures
        token_fails(t),
        e matches AircraftBuildError::InvalidMessage(InvalidMessageError::InvalidTimeFormat(_)),
{
}

/// Reads the tokens of `chars` from `from` on into `builder`.
fn read_body(
    line: &str,
    chars: &Vec<char>,
    from: usize,
    today: i32,
    builder: &mut AircraftBuilder,
) -> (read: Result<(), AircraftBuildError>)
    requires
        chars@ == line@,
        from <= chars.len(),
        old(builder).holds(Gathered { address: None, position: None }),
    ensures
        final(builder).callsign == old(builder).callsign,
        match gather_tokens(line@, from as int, today, Gathered { address: None, position: None }) {
            None => read matches Err(
                AircraftBuildError::InvalidMessage(InvalidMessageError::InvalidTimeFormat(_)),
            ),
            Some(gathered) => read is Ok && final(builder).holds(gathered),
        },
{
    let ghost nothing = Gathered { address: None, position: None };
    let ghost mut gathered = nothing;
    let mut at: usize = from;
    loop
        invariant
            chars@ == line@,
            from <= at <= chars.len(),
            nothing == (Gathered { address: None, position: None }),
            builder.holds(gathered),
            builder.callsign == old(builder).callsign,
            gather_tokens(line@, from as int, today, nothing) == gather_tokens(
                line@,
                at as int,
                today,
                gathered,
            ),
        ensures
            gather_tokens(line@, from as int, today, nothing) == Some(gathered),
            builder.holds(gathered),
            builder.callsign == old(builder).callsign,
        decreases chars.len() - at,
    {
        let start = skip_blank(chars, at);
        if start >= chars.len() {
            proof {
                lemma_gather_end(line@, at as int, today, gathered);
            }
            break ;
        }
        let end = skip_token(chars, start);
        let ghost t = line@.subrange(start as int, end as int);
        proof {
            lemma_gather_step(line@, at as int, today, gathered);
        }
        match extract_token(line, chars, start, end, today) {
            Err(e) => {
                proof {
                    lemma_token_error(t, today, e);
                }
                return Err(e);
            },
            Ok(data) => {
                let ghost before = *builder;
                builder.record(data);
                proof {
                    lemma_record_holds(before, *builder, data, gathered, t, today);
                    gathered = gather(gathered, t, today);
                }
            },
        }
        at = end;
    }
    Ok(())
}

/// Decodes one line of the feed into a report. `today` numbers the day of
/// the report as the calendar does that counts 1 January of the year 1 as
/// day 1.
pub fn build_aircraft_on(string: &str, today: i32) -> (built: Result<Aircraft, AircraftBuildError>)
    ensures
        answers(built, line_verdict(string@, today)),
        built matches Ok(aircraft) ==> is_callsign(aircraft.callsign@),
{
    let chars = chars_of(string);
    let callsign_end = find(&chars, CALLSIGN_DELIMITER);
    if callsign_end >= chars.len() {
        return Err(
            AircraftBuildError::InvalidMessage(
                InvalidMessageError::InvalidFormat("No valid callsign".to_owned()),
            ),
        );
    }
    let header_end = find_pair(&chars, HEADER_END, BODY_START);
    if header_end >= chars.len() {
        return Err(
            AircraftBuildError::InvalidMessage(
                InvalidMessageError::InvalidFormat("Cannot establish header".to_owned()),
            ),
        );
    }
    let callsign = string.substring_char(0, callsign_end);
    if !callsign_is_valid(callsign) {
        return Err(AircraftBuildError::MissingCallsign);
    }
    let mut builder = AircraftBuilder::new();
    builder.callsign = Some(callsign.to_owned());
    match read_body(string, &chars, header_end + 2, today, &mut builder) {
        Err(e) => Err(e),
        Ok(()) => builder.build(),
    }
}

/// Decodes one line of the feed into a report, taking the day from the
/// local calendar.
pub fn build_aircraft_from_string(string: &str) -> (built: Result<Aircraft, AircraftBuildError>)
    ensures
        exists|today: i32| answers(built, line_verdict(string@, today)),
        built matches Ok(aircraft) ==> is_callsign(aircraft.callsign@),
{
    let today = local_today();
    build_aircraft_on(string, today)
}

/// The numbers of a position token fit the fields of a report.
pub proof fn lemma_field_ranges(t: Seq<char>)
    requires
        is_gps_token(t),
    ensures
        gps_fields(t).hour == decimal_value(t.subrange(0, 2)) < 100,
        gps_fields(t).minute == decimal_value(t.subrange(2, 4)) < 100,
        gps_fields(t).second == decimal_value(t.subrange(4, 6)) < 100,
        gps_fields(t).latitude_degrees < 100,
        gps_fields(t).latitude_minute_hundredths < 10_000,
        gps_fields(t).longitude_degrees < 1000,
        gps_fields(t).longitude_minute_hundredths < 10_000,
        gps_fields(t).ground_track < 1000,
        gps_fields(t).ground_speed < 1000,
        gps_fields(t).gps_altitude < 1_000_000,
{
    assert(pow10(2) == 100 && pow10(3) == 1000 && pow10(6) == 1_000_000) by {
        reveal_with_fuel(pow10, 7);
    }
    lemma_digits_between(t, 0, 2);
    lemma_decimal_value_bound(t.subrange(0, 2));
    lemma_digits_between(t, 2, 4);
    lemma_decimal_value_bound(t.subrange(2, 4));
    lemma_digits_between(t, 4, 6);
    lemma_decimal_value_bound(t.subrange(4, 6));
    lemma_digits_between(t, 7, 9);
    lemma_decimal_value_bound(t.subrange(7, 9));
    lemma_digits_between(t, 9, 11);
    lemma_decimal_value_bound(t.subrange(9, 11));
    lemma_digits_between(t, 12, 14);
    lemma_decimal_value_bound(t.subrange(12, 14));
    lemma_digits_between(t, 16, 19);
    lemma_decimal_value_bound(t.subrange(16, 19));
    lemma_digits_between(t, 19, 21);
    lemma_decimal_value_bound(t.subrange(19, 21));
    lemma_digits_between(t, 22, 24);
    lemma_decimal_value_bound(t.subrange(22, 24));
    lemma_digits_between(t, 26, 29);
    lemma_decimal_value_bound(t.subrange(26, 29));
    lemma_digits_between(t, 30, 33);
    lemma_decimal_value_bound(t.subrange(30, 33));
    lemma_digits_between(t, 36, 42);
    lemma_decimal_value_bound(t.subrange(36, 42));
}

/// The eight digits of an identifier pattern are hexadecimal in both parts.
proof fn lemma_beacon_digits(t: Seq<char>, at: int)
    requires
        beacon_at(t, at),
    ensures
        all_hex(t.subrange(at + 2, at + 10).subrange(0, 2)),
        all_hex(t.subrange(at + 2, at + 10).subrange(2, 8)),
{
    let digits = t.subrange(at + 2, at + 10);
    assert forall|i: int| 0 <= i < 2 implies is_hex_digit(
        #[trigger] digits.subrange(0, 2)[i],
    ) by {
        assert(digits.subrange(0, 2)[i] == digits[i]);
    }
    assert forall|i: int| 0 <= i < 6 implies is_hex_digit(
        #[trigger] digits.subrange(2, 8)[i],
    ) by {
        assert(digits.subrange(2, 8)[i] == digits[i + 2]);
    }
}

} // verus!
