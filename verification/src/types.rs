//! What the tasks hand to each other: instants, angles, addresses and
//! reports.

use crate::hex::{all_hex, hex_value, lemma_upper_hex_reads_back, pow16, push_upper_hex, upper_hex};
use crate::text::{decimal, hexadecimal, push_decimal, push_hexadecimal};
use vstd::prelude::*;
use vstd::string::StringExecFns;
use vstd::utf8::is_ascii_chars;

verus! {

/// A UTC instant: whole seconds since the Unix epoch, and the nanoseconds
/// into that second. Instants are ordered by the seconds, then by the
/// nanoseconds.
#[derive(Debug, PartialEq, Eq, Clone, Copy, Structural)]
pub struct Timestamp {
    pub seconds: i64,
    pub nanos: u32,
}

impl Timestamp {
    /// Whether `self` is strictly earlier than `other`.
    pub open spec fn before(self, other: Timestamp) -> bool {
        self.seconds < other.seconds || (self.seconds == other.seconds && self.nanos < other.nanos)
    }

    /// Whether `self` is earlier than `other` or the same instant.
    pub open spec fn not_after(self, other: Timestamp) -> bool {
        !other.before(self)
    }

    /// Whether `self` lies more than `window` seconds before `now`.
    pub open spec fn expired(self, now: Timestamp, window: u32) -> bool {
        self.seconds + window < now.seconds || (self.seconds + window == now.seconds && self.nanos
            < now.nanos)
    }

    pub fn new(seconds: i64, nanos: u32) -> (made: Self)
        ensures
            made == (Timestamp { seconds, nanos }),
    {
        Timestamp { seconds, nanos }
    }

    pub fn is_before(&self, other: &Timestamp) -> (earlier: bool)
        ensures
            earlier == self.before(*other),
    {
        self.seconds < other.seconds || (self.seconds == other.seconds && self.nanos < other.nanos)
    }

    pub fn is_not_after(&self, other: &Timestamp) -> (earlier: bool)
        ensures
            earlier == self.not_after(*other),
    {
        !other.is_before(self)
    }

    /// Tells whether `self` has left a window of `window` seconds that ends
    /// at `now`.
    pub fn is_expired(&self, now: &Timestamp, window: u32) -> (gone: bool)
        ensures
            gone == self.expired(*now, window),
    {
        let limit: i128 = self.seconds as i128 + window as i128;
        let end: i128 = now.seconds as i128;
        limit < end || (limit == end && self.nanos < now.nanos)
    }
}

/// An angle as the feed writes it: whole degrees and hundredths of a minute
/// of arc.
#[derive(Debug, PartialEq, Eq, Clone, Copy, Structural)]
pub struct Coordinate {
    pub degrees: u16,
    pub minute_hundredths: u16,
}

impl Coordinate {
    /// The angle in six-thousandths of a degree: the degrees, and the
    /// minutes at sixty to the degree.
    pub open spec fn six_thousandths(self) -> int {
        self.degrees * 6000 + self.minute_hundredths
    }

    /// The angle in six-thousandths of a degree.
    pub fn in_six_thousandths(&self) -> (angle: u32)
        ensures
            angle == self.six_thousandths(),
    {
        self.degrees as u32 * 6000 + self.minute_hundredths as u32
    }
}

/// Whether `s` can be a callsign: it is not empty, and its characters are
/// ASCII.
pub open spec fn is_callsign(s: Seq<char>) -> bool {
    s.len() > 0 && is_ascii_chars(s)
}

/// Tells whether `s` can be a callsign.
pub fn callsign_is_valid(s: &str) -> (valid: bool)
    ensures
        valid == is_callsign(s@),
{
    !s.is_empty() && s.is_ascii()
}

/// One position report of one aircraft. A report that the parser gives has
/// a callsign that `is_callsign` accepts.
#[derive(Debug, PartialEq, Clone)]
pub struct Aircraft {
    pub callsign: String,
    pub icao_address: ICAOAddress,
    pub datetime: Timestamp,
    pub latitude: Coordinate,
    pub longitude: Coordinate,
    /// Degrees.
    pub ground_track: u16,
    /// Knots.
    pub ground_speed: u16,
    /// Feet.
    pub gps_altitude: u32,
}

/// A report as a value of plain data: the callsign as its characters and the
/// address as its number.
pub struct AircraftView {
    pub callsign: Seq<char>,
    pub icao_address: u32,
    pub datetime: Timestamp,
    pub latitude: Coordinate,
    pub longitude: Coordinate,
    pub ground_track: u16,
    pub ground_speed: u16,
    pub gps_altitude: u32,
}

impl View for Aircraft {
    type V = AircraftView;

    open spec fn view(&self) -> AircraftView {
        AircraftView {
            callsign: self.callsign@,
            icao_address: self.icao_address.spec_value(),
            datetime: self.datetime,
            latitude: self.latitude,
            longitude: self.longitude,
            ground_track: self.ground_track,
            ground_speed: self.ground_speed,
            gps_altitude: self.gps_altitude,
        }
    }
}

/// A 24-bit ICAO aircraft address.
#[derive(Debug, PartialEq, Eq, Clone, Copy, Hash, Structural)]
pub struct ICAOAddress(u32);

impl ICAOAddress {
    /// The largest address: 24 bits set.
    pub const MAX_VALUE: u32 = 0x00FF_FFFF;

    #[verifier::type_invariant]
    spec fn in_range(self) -> bool {
        self.0 <= 0x00FF_FFFF
    }

    /// The address as a number.
    pub closed spec fn spec_value(&self) -> u32 {
        self.0
    }

    pub fn new(value: u32) -> (made: Result<Self, ICAOAddressError>)
        ensures
            value <= 0x00FF_FFFF ==> (made matches Ok(a) && a.spec_value() == value),
            value > 0x00FF_FFFF ==> made == Err::<Self, ICAOAddressError>(
                ICAOAddressError::InvalidAddress(value),
            ),
    {
        if value <= Self::MAX_VALUE {
            Ok(ICAOAddress(value))
        } else {
            Err(ICAOAddressError::InvalidAddress(value))
        }
    }

    #[verifier::when_used_as_spec(spec_value)]
    pub fn value(&self) -> (value: u32)
        ensures
            value == self.spec_value(),
            value <= 0x00FF_FFFF,
    {
        proof {
            use_type_invariant(self);
        }
        self.0
    }

    /// The address as eight upper-case hexadecimal digits, zero-padded.
    pub fn to_string(&self) -> (text: String)
        ensures
            text@ == upper_hex(self.spec_value() as nat, 8),
    {
        let mut text = String::new();
        push_upper_hex(&mut text, self.0, 8);
        text
    }

    /// Two addresses with one number are one address.
    pub proof fn lemma_value_identifies(self, other: ICAOAddress)
        requires
            self.spec_value() == other.spec_value(),
        ensures
            self == other,
    {
    }

    /// The eight digits that `to_string` writes are hexadecimal digits whose
    /// value is the address again: two zeros, then the address in six digits.
    pub proof fn lemma_rendering_reads_back(self)
        requires
            self.spec_value() <= 0x00FF_FFFF,
        ensures
            upper_hex(self.spec_value() as nat, 8).len() == 8,
            all_hex(upper_hex(self.spec_value() as nat, 8)),
            hex_value(upper_hex(self.spec_value() as nat, 8)) == self.spec_value(),
            hex_value(upper_hex(self.spec_value() as nat, 8).subrange(0, 2)) == 0,
            hex_value(upper_hex(self.spec_value() as nat, 8).subrange(2, 8)) == self.spec_value(),
    {
        let v = self.spec_value() as nat;
        lemma_upper_hex_reads_back(v, 8);
        assert(pow16(8) == 0x1_0000_0000) by {
            reveal_with_fuel(pow16, 9);
        }
        assert(pow16(6) == 0x100_0000) by {
            reveal_with_fuel(pow16, 7);
        }
        let text = upper_hex(v, 8);
        crate::hex::lemma_hex_value_split(text, 2);
        crate::hex::lemma_hex_value_bound(text.subrange(2, 8));
        assert(hex_value(text) == hex_value(text.subrange(0, 2)) * pow16(6) + hex_value(
            text.subrange(2, 8),
        ));
        assert(hex_value(text.subrange(0, 2)) == 0) by (nonlinear_arith)
            requires
                hex_value(text) == hex_value(text.subrange(0, 2)) * 0x100_0000 + hex_value(
                    text.subrange(2, 8),
                ),
                hex_value(text) <= 0x00FF_FFFF,
        ;
    }
}

/// Why a text or a number is no address.
#[derive(Debug, PartialEq, Eq, Clone, Copy, Structural)]
pub enum ICAOAddressError {
    InvalidHexFormat,
    InvalidAddress(u32),
}

impl ICAOAddressError {
    /// The error in words.
    pub open spec fn message(self) -> Seq<char> {
        match self {
            ICAOAddressError::InvalidHexFormat => "Invalid hexadecimal format"@,
            ICAOAddressError::InvalidAddress(value) => "Value 0x"@ + hexadecimal(value as nat)
                + " ("@ + decimal(value as nat)
                + ") exceeds 24-bit ICAO address limit (0x"@ + hexadecimal(0x00FF_FFFF) + ")"@,
        }
    }

    /// The error in words: for a number that is no address, the number in
    /// hexadecimal and in decimal digits, and the largest address.
    pub fn to_string(&self) -> (text: String)
        ensures
            text@ == self.message(),
    {
        match self {
            ICAOAddressError::InvalidHexFormat => "Invalid hexadecimal format".to_owned(),
            ICAOAddressError::InvalidAddress(value) => {
                let mut text = "Value 0x".to_owned();
                push_hexadecimal(&mut text, *value as u64);
                text.append(" (");
                push_decimal(&mut text, *value as u64);
                text.append(") exceeds 24-bit ICAO address limit (0x");
                push_hexadecimal(&mut text, ICAOAddress::MAX_VALUE as u64);
                text.append(")");
                assert(text@ =~= self.message());
                text
            },
        }
    }
}

} // verus!
