//! The beacon identifier of an OGN report: a prefix byte and an ICAO address.

use crate::hex::{
    all_hex, hex_value, is_hex_digit, lemma_hex_value_bound, parse_hex, pow16, upper_hex,
};
use crate::text::{chars_of, decimal, push_decimal};
use vstd::string::StringExecFns;
pub use crate::types::{Aircraft, ICAOAddress, ICAOAddressError};
use vstd::prelude::*;

verus! {

/// How the address of a beacon was assigned.
#[derive(Debug, PartialEq, Eq, Clone, Copy, Structural)]
pub enum OGNAddressType {
    Unknown,
    ICAO,
    FLARM,
    OgnTracker,
}

/// The address type that a two-bit code stands for.
pub open spec fn address_type_of(code: u8) -> Option<OGNAddressType> {
    match code {
        0 => Some(OGNAddressType::Unknown),
        1 => Some(OGNAddressType::ICAO),
        2 => Some(OGNAddressType::FLARM),
        3 => Some(OGNAddressType::OgnTracker),
        _ => None,
    }
}

impl OGNAddressType {
    pub fn from_u8(value: u8) -> (made: Result<Self, OGNAddressTypeError>)
        ensures
            made == match address_type_of(value) {
                Some(kind) => Ok::<Self, OGNAddressTypeError>(kind),
                None => Err(OGNAddressTypeError::InvalidAddressType(value)),
            },
    {
        match value {
            0 => Ok(OGNAddressType::Unknown),
            1 => Ok(OGNAddressType::ICAO),
            2 => Ok(OGNAddressType::FLARM),
            3 => Ok(OGNAddressType::OgnTracker),
            other => Err(OGNAddressTypeError::InvalidAddressType(other)),
        }
    }
}

/// A code that stands for no address type.
#[derive(Debug, PartialEq, Eq, Clone, Copy, Structural)]
pub enum OGNAddressTypeError {
    InvalidAddressType(u8),
}

impl OGNAddressTypeError {
    /// The error in words.
    pub open spec fn message(self) -> Seq<char> {
        match self {
            OGNAddressTypeError::InvalidAddressType(code) => "Invalid address format "@ + decimal(
                code as nat,
            ),
        }
    }

    /// The error in words, with the code that has no meaning.
    pub fn to_string(&self) -> (text: String)
        ensures
            text@ == self.message(),
    {
        match self {
            OGNAddressTypeError::InvalidAddressType(code) => {
                let mut text = "Invalid address format ".to_owned();
                push_decimal(&mut text, *code as u64);
                text
            },
        }
    }
}

/// What kind of aircraft carries a beacon.
#[derive(Debug, PartialEq, Eq, Clone, Copy, Structural)]
pub enum OGNAircraftType {
    Reserved,
    Glider,
    TowPlane,
    Helicopter,
    Parachute,
    DropPlane,
    HangGlider,
    Paraglider,
    ReciprocatingEngineAircraft,
    JetTurbopropAircraft,
    Unknown,
    Balloon,
    Airship,
    UAVs,
    StaticObstacle,
}

/// The aircraft type that a four-bit code stands for; the codes 0 and 14 are
/// both reserved.
pub open spec fn aircraft_type_of(code: u8) -> Option<OGNAircraftType> {
    match code {
        0 => Some(OGNAircraftType::Reserved),
        1 => Some(OGNAircraftType::Glider),
        2 => Some(OGNAircraftType::TowPlane),
        3 => Some(OGNAircraftType::Helicopter),
        4 => Some(OGNAircraftType::Parachute),
        5 => Some(OGNAircraftType::DropPlane),
        6 => Some(OGNAircraftType::HangGlider),
        7 => Some(OGNAircraftType::Paraglider),
        8 => Some(OGNAircraftType::ReciprocatingEngineAircraft),
        9 => Some(OGNAircraftType::JetTurbopropAircraft),
        10 => Some(OGNAircraftType::Unknown),
        11 => Some(OGNAircraftType::Balloon),
        12 => Some(OGNAircraftType::Airship),
        13 => Some(OGNAircraftType::UAVs),
        14 => Some(OGNAircraftType::Reserved),
        15 => Some(OGNAircraftType::StaticObstacle),
        _ => None,
    }
}

impl OGNAircraftType {
    pub fn from_u8(value: u8) -> (made: Result<Self, OGNAircraftTypeError>)
        ensures
            made == match aircraft_type_of(value) {
                Some(kind) => Ok::<Self, OGNAircraftTypeError>(kind),
                None => Err(OGNAircraftTypeError::InvalidEnum(value)),
            },
    {
        match value {
            0 | 14 => Ok(OGNAircraftType::Reserved),
            1 => Ok(OGNAircraftType::Glider),
            2 => Ok(OGNAircraftType::TowPlane),
            3 => Ok(OGNAircraftType::Helicopter),
            4 => Ok(OGNAircraftType::Parachute),
            5 => Ok(OGNAircraftType::DropPlane),
            6 => Ok(OGNAircraftType::HangGlider),
            7 => Ok(OGNAircraftType::Paraglider),
            8 => Ok(OGNAircraftType::ReciprocatingEngineAircraft),
            9 => Ok(OGNAircraftType::JetTurbopropAircraft),
            10 => Ok(OGNAircraftType::Unknown),
            11 => Ok(OGNAircraftType::Balloon),
            12 => Ok(OGNAircraftType::Airship),
            13 => Ok(OGNAircraftType::UAVs),
            15 => Ok(OGNAircraftType::StaticObstacle),
            other => Err(OGNAircraftTypeError::InvalidEnum(other)),
        }
    }
}

/// A code that stands for no aircraft type.
#[derive(Debug, PartialEq, Eq, Clone, Copy, Structural)]
pub enum OGNAircraftTypeError {
    InvalidEnum(u8),
}

impl OGNAircraftTypeError {
    /// The error in words.
    pub open spec fn message(self) -> Seq<char> {
        match self {
            OGNAircraftTypeError::InvalidEnum(code) => "Invalid value: "@ + decimal(code as nat),
        }
    }

    /// The error in words, with the code that has no meaning.
    pub fn to_string(&self) -> (text: String)
        ensures
            text@ == self.message(),
    {
        match self {
            OGNAircraftTypeError::InvalidEnum(code) => {
                let mut text = "Invalid value: ".to_owned();
                push_decimal(&mut text, *code as u64);
                text
            },
        }
    }
}

/// The first byte of a beacon identifier, taken apart.
#[derive(Debug, PartialEq, Eq, Clone, Copy, Structural)]
pub struct OGNIDPrefix {
    /// The byte as it was sent.
    pub hex: u8,
    pub aircraft_type: OGNAircraftType,
    pub address_type: OGNAddressType,
    pub no_track: bool,
    pub stealth_mode: bool,
}

/// The two low bits of a prefix byte: the code of the address type.
pub open spec fn address_bits(value: u8) -> u8 {
    value & 0b11
}

/// Bits 2 to 5 of a prefix byte: the code of the aircraft type.
pub open spec fn aircraft_bits(value: u8) -> u8 {
    (value >> 2) & 0b1111
}

/// Bit 6 of a prefix byte: the sender asks not to be tracked.
pub open spec fn no_track_bit(value: u8) -> bool {
    (value >> 6) & 0b1 == 1
}

/// Bit 7 of a prefix byte: the sender flies in stealth mode.
pub open spec fn stealth_bit(value: u8) -> bool {
    (value >> 7) & 0b1 == 1
}

impl OGNIDPrefix {
    /// Whether the fields of the prefix say what the bits of `value` say.
    pub open spec fn decodes(self, value: u8) -> bool {
        &&& self.hex == value
        &&& Some(self.address_type) == address_type_of(address_bits(value))
        &&& Some(self.aircraft_type) == aircraft_type_of(aircraft_bits(value))
        &&& self.no_track == no_track_bit(value)
        &&& self.stealth_mode == stealth_bit(value)
    }

    /// Every byte is a prefix: each code of two and of four bits has a
    /// meaning.
    pub fn new(value: u8) -> (made: Result<Self, OGNIDPrefixError>)
        ensures
            made matches Ok(prefix) && prefix.decodes(value),
    {
        let raw_type = (value >> 2) & 0b1111;
        assert(raw_type < 16) by (bit_vector)
            requires
                raw_type == (value >> 2) & 0b1111,
        ;
        let aircraft_type = match OGNAircraftType::from_u8(raw_type) {
            Ok(kind) => kind,
            Err(e) => {
                return Err(OGNIDPrefixError::InvalidAircraftType(e));
            },
        };
        let raw_address = value & 0b11;
        assert(raw_address < 4) by (bit_vector)
            requires
                raw_address == value & 0b11,
        ;
        let address_type = match OGNAddressType::from_u8(raw_address) {
            Ok(kind) => kind,
            Err(e) => {
                return Err(OGNIDPrefixError::InvalidAddressType(e));
            },
        };
        let no_track = ((value >> 6) & 0b1) == 1;
        let stealth_mode = ((value >> 7) & 0b1) == 1;
        Ok(OGNIDPrefix { hex: value, aircraft_type, address_type, no_track, stealth_mode })
    }

    /// Reads a prefix from exactly two hexadecimal digits.
    pub fn from_hex_str(s: &str) -> (made: Result<Self, OGNIDPrefixError>)
        ensures
            s@.len() == 2 && all_hex(s@) ==> (made matches Ok(prefix) && prefix.decodes(
                hex_value(s@) as u8,
            )),
            !(s@.len() == 2 && all_hex(s@)) ==> made == Err::<Self, OGNIDPrefixError>(
                OGNIDPrefixError::InvalidHexFormat,
            ),
    {
        let chars = chars_of(s);
        if chars.len() != 2 {
            return Err(OGNIDPrefixError::InvalidHexFormat);
        }
        assert(chars@.subrange(0, 2) == s@);
        match parse_hex(&chars, 0, 2) {
            Some(value) => {
                proof {
                    lemma_hex_value_bound(s@);
                    assert(pow16(2) == 256) by {
                        reveal_with_fuel(pow16, 3);
                    }
                }
                OGNIDPrefix::new(value as u8)
            },
            None => Err(OGNIDPrefixError::InvalidHexFormat),
        }
    }
}

/// Why a text or a byte is no prefix.
#[derive(Debug, PartialEq, Eq, Clone, Copy, Structural)]
pub enum OGNIDPrefixError {
    InvalidHexFormat,
    InvalidAircraftType(OGNAircraftTypeError),
    InvalidAddressType(OGNAddressTypeError),
}

impl OGNIDPrefixError {
    /// The error in words.
    pub open spec fn message(self) -> Seq<char> {
        match self {
            OGNIDPrefixError::InvalidHexFormat => "Invalid hexadecimal format"@,
            OGNIDPrefixError::InvalidAircraftType(e) => e.message(),
            OGNIDPrefixError::InvalidAddressType(e) => e.message(),
        }
    }

    /// The error in words: those of the error inside, where there is one.
    pub fn to_string(&self) -> (text: String)
        ensures
            text@ == self.message(),
    {
        match self {
            OGNIDPrefixError::InvalidHexFormat => "Invalid hexadecimal format".to_owned(),
            OGNIDPrefixError::InvalidAircraftType(e) => e.to_string(),
            OGNIDPrefixError::InvalidAddressType(e) => e.to_string(),
        }
    }
}

/// The identifier that a beacon sends: eight hexadecimal digits, two for
/// the prefix and six for the address.
#[derive(Debug, PartialEq, Eq, Clone, Copy, Structural)]
pub struct OGNBeaconID {
    pub prefix: OGNIDPrefix,
    pub icao_address: ICAOAddress,
}

impl OGNBeaconID {
    pub fn new(prefix: OGNIDPrefix, icao_address: ICAOAddress) -> (made: Self)
        ensures
            made == (OGNBeaconID { prefix, icao_address }),
    {
        OGNBeaconID { prefix, icao_address }
    }

    /// Whether `self` is what the eight digits `digits` say.
    pub open spec fn reads(self, digits: Seq<char>) -> bool {
        &&& self.prefix.decodes(hex_value(digits.subrange(0, 2)) as u8)
        &&& self.icao_address.spec_value() == hex_value(digits.subrange(2, 8))
    }

    /// Reads a beacon identifier from the characters `chars[from..from + 8]`,
    /// which are hexadecimal digits.
    pub fn from_digits(chars: &Vec<char>, from: usize) -> (made: Result<Self, OGNBeaconIDError>)
        requires
            from + 8 <= chars.len(),
        ensures
            beacon_digits_outcome(chars@.subrange(from as int, from + 8), made),
    {
        let ghost digits = chars@.subrange(from as int, from + 8);
        assert(digits.subrange(0, 2) == chars@.subrange(from as int, from + 2));
        assert(digits.subrange(2, 8) == chars@.subrange(from + 2, from + 8));
        let prefix = match parse_hex(chars, from, from + 2) {
            Some(value) => {
                proof {
                    lemma_hex_value_bound(digits.subrange(0, 2));
                    assert(pow16(2) == 256) by {
                        reveal_with_fuel(pow16, 3);
                    }
                }
                match OGNIDPrefix::new(value as u8) {
                    Ok(prefix) => prefix,
                    Err(e) => {
                        return Err(OGNBeaconIDError::OGNIDPrefixError(e));
                    },
                }
            },
            None => {
                return Err(
                    OGNBeaconIDError::OGNIDPrefixError(OGNIDPrefixError::InvalidHexFormat),
                );
            },
        };
        let icao_address = match parse_hex(chars, from + 2, from + 8) {
            Some(value) => {
                proof {
                    lemma_hex_value_bound(digits.subrange(2, 8));
                    assert(pow16(6) == 0x100_0000) by {
                        reveal_with_fuel(pow16, 7);
                    }
                }
                match ICAOAddress::new(value) {
                    Ok(address) => address,
                    Err(e) => {
                        return Err(OGNBeaconIDError::ICAOAddressError(e));
                    },
                }
            },
            None => {
                return Err(
                    OGNBeaconIDError::ICAOAddressError(ICAOAddressError::InvalidHexFormat),
                );
            },
        };
        Ok(OGNBeaconID::new(prefix, icao_address))
    }

    /// Reads a beacon identifier from exactly eight hexadecimal digits. A
    /// text of another length is handed back in the error.
    pub fn from_hex_str(s: &str) -> (made: Result<Self, OGNBeaconIDError>)
        ensures
            s@.len() == 8 ==> beacon_digits_outcome(s@, made),
            s@.len() != 8 ==> (made matches Err(OGNBeaconIDError::InvalidOGNBeaconFormat(text))
                && text@ == s@),
    {
        let chars = chars_of(s);
        if chars.len() == 8 {
            assert(chars@.subrange(0, 8) == s@);
            OGNBeaconID::from_digits(&chars, 0)
        } else {
            Err(OGNBeaconIDError::InvalidOGNBeaconFormat(s.to_owned()))
        }
    }
}

/// What reading the eight characters `digits` gives: the identifier they
/// spell, or the error of the first part that is not hexadecimal.
pub open spec fn beacon_digits_outcome(
    digits: Seq<char>,
    made: Result<OGNBeaconID, OGNBeaconIDError>,
) -> bool {
    if !all_hex(digits.subrange(0, 2)) {
        made == Err::<OGNBeaconID, OGNBeaconIDError>(
            OGNBeaconIDError::OGNIDPrefixError(OGNIDPrefixError::InvalidHexFormat),
        )
    } else if !all_hex(digits.subrange(2, 8)) {
        made == Err::<OGNBeaconID, OGNBeaconIDError>(
            OGNBeaconIDError::ICAOAddressError(ICAOAddressError::InvalidHexFormat),
        )
    } else {
        made matches Ok(id) && id.reads(digits)
    }
}

/// The eight digits that an address is written with read back as the
/// identifier of that address under the prefix zero.
pub proof fn lemma_written_address_reads_back(
    address: ICAOAddress,
    made: Result<OGNBeaconID, OGNBeaconIDError>,
)
    requires
        address.spec_value() <= 0x00FF_FFFF,
        beacon_digits_outcome(upper_hex(address.spec_value() as nat, 8), made),
    ensures
        made matches Ok(id) && id.icao_address == address && id.prefix.decodes(0),
{
    let digits = upper_hex(address.spec_value() as nat, 8);
    address.lemma_rendering_reads_back();
    assert forall|i: int| 0 <= i < 2 implies is_hex_digit(#[trigger] digits.subrange(0, 2)[i]) by {
        assert(digits.subrange(0, 2)[i] == digits[i]);
    }
    assert forall|i: int| 0 <= i < 6 implies is_hex_digit(#[trigger] digits.subrange(2, 8)[i]) by {
        assert(digits.subrange(2, 8)[i] == digits[i + 2]);
    }
    address.lemma_value_identifies(made->Ok_0.icao_address);
}

impl std::str::FromStr for OGNBeaconID {
    type Err = OGNBeaconIDError;

    /// Reads a beacon identifier from exactly eight hexadecimal digits, as
    /// `from_hex_str` does.
    fn from_str(s: &str) -> (made: Result<Self, Self::Err>)
        ensures
            s@.len() == 8 ==> beacon_digits_outcome(s@, made),
            s@.len() != 8 ==> (made matches Err(OGNBeaconIDError::InvalidOGNBeaconFormat(text))
                && text@ == s@),
    {
        OGNBeaconID::from_hex_str(s)
    }
}

/// Why a text is no beacon identifier: the part that is wrong, or the
/// whole text where its length is.
#[derive(Debug, PartialEq, Eq)]
pub enum OGNBeaconIDError {
    OGNIDPrefixError(OGNIDPrefixError),
    ICAOAddressError(ICAOAddressError),
    InvalidOGNBeaconFormat(String),
}

impl OGNBeaconIDError {
    /// The error in words.
    pub open spec fn message(self) -> Seq<char> {
        match self {
            OGNBeaconIDError::OGNIDPrefixError(e) => e.message(),
            OGNBeaconIDError::ICAOAddressError(e) => e.message(),
            OGNBeaconIDError::InvalidOGNBeaconFormat(string) => "Invalid beacon format: "@
                + string@,
        }
    }

    /// The error in words: those of the error inside, or the text that is
    /// no identifier.
    pub fn to_string(&self) -> (text: String)
        ensures
            text@ == self.message(),
    {
        match self {
            OGNBeaconIDError::OGNIDPrefixError(e) => e.to_string(),
            OGNBeaconIDError::ICAOAddressError(e) => e.to_string(),
            OGNBeaconIDError::InvalidOGNBeaconFormat(string) => {
                let mut text = "Invalid beacon format: ".to_owned();
                text.append(string.as_str());
                text
            },
        }
    }
}

} // verus!
