//! The user's command, validated into an `Intent` before any device contact.
use vstd::prelude::*;
use crate::address::{ipv4_of, parse_ipv4, Ipv4Address};
use crate::decimal::{literal_value, read_literal};

verus! {

/// Brightness for `on` when none is given.
pub const DEFAULT_BRIGHTNESS: u8 = 10;

/// Colour temperature for `on` when none is given.
pub const DEFAULT_TEMPERATURE: u32 = 3000;

/// Why the user's input was rejected.
#[derive(Clone, Copy, Debug, PartialEq, Eq, Structural)]
pub enum ParseError {
    /// Not an integer literal.
    MalformedNumber,
    /// An integer outside the range the argument allows.
    OutOfRange,
    /// Not a dotted-quad IPv4 address.
    InvalidAddress,
}

/// What the user asked the light to do.
#[derive(Clone, Copy, Debug, PartialEq, Eq, Structural)]
pub enum Intent {
    On { brightness: u8, temperature: u32 },
    Off,
    AdjustBrightness { delta: i8 },
    SetTemperature { temperature: u32 },
    Status,
}

impl Intent {
    /// Brightness within 0..=100 and deltas within -100..=100.
    pub open spec fn wf(self) -> bool {
        match self {
            Intent::On { brightness, .. } => brightness <= 100,
            Intent::AdjustBrightness { delta } => -100 <= delta <= 100,
            _ => true,
        }
    }
}

/// A validated intent together with the address of the device it is for.
#[derive(Clone, Copy, Debug, PartialEq, Eq, Structural)]
pub struct Invocation {
    pub intent: Intent,
    pub address: Ipv4Address,
}

/// A subcommand with its arguments as the user typed them; `None` for an
/// option that was left out.
#[derive(Debug)]
pub enum RawCommand {
    On { brightness: Option<String>, temperature: Option<String>, ip_address: Option<String> },
    Off { ip_address: Option<String> },
    Brightness { delta: String, ip_address: Option<String> },
    Temperature { temperature: String, ip_address: Option<String> },
    Status { ip_address: Option<String> },
}

pub open spec fn default_address() -> Ipv4Address {
    Ipv4Address { a: 192, b: 168, c: 0, d: 25 }
}

pub open spec fn bounded_literal(s: Seq<char>, signed: bool, lo: int, hi: int) -> Result<
    int,
    ParseError,
> {
    match literal_value(s, signed) {
        None => Err(ParseError::MalformedNumber),
        Some(v) => if lo <= v <= hi {
            Ok(v)
        } else {
            Err(ParseError::OutOfRange)
        },
    }
}

pub open spec fn delta_of(s: Seq<char>) -> Result<i8, ParseError> {
    match bounded_literal(s, true, -100, 100) {
        Ok(v) => Ok(v as i8),
        Err(e) => Err(e),
    }
}

pub open spec fn brightness_of(s: Seq<char>) -> Result<u8, ParseError> {
    match bounded_literal(s, false, 0, 100) {
        Ok(v) => Ok(v as u8),
        Err(e) => Err(e),
    }
}

pub open spec fn temperature_of(s: Seq<char>) -> Result<u32, ParseError> {
    match bounded_literal(s, false, 0, u32::MAX as int) {
        Ok(v) => Ok(v as u32),
        Err(e) => Err(e),
    }
}

pub open spec fn address_of(s: Option<String>) -> Result<Ipv4Address, ParseError> {
    match s {
        None => Ok(default_address()),
        Some(t) => match ipv4_of(t@) {
            Some(a) => Ok(a),
            None => Err(ParseError::InvalidAddress),
        },
    }
}

/// The intent a subcommand denotes, checking its numbers in the order given.
pub open spec fn intent_of(raw: RawCommand) -> Result<Intent, ParseError> {
    match raw {
        RawCommand::On { brightness, temperature, .. } => {
            let b = match brightness {
                None => Ok(DEFAULT_BRIGHTNESS),
                Some(s) => brightness_of(s@),
            };
            let t = match temperature {
                None => Ok(DEFAULT_TEMPERATURE),
                Some(s) => temperature_of(s@),
            };
            match (b, t) {
                (Err(e), _) => Err(e),
                (Ok(_), Err(e)) => Err(e),
                (Ok(b), Ok(t)) => Ok(Intent::On { brightness: b, temperature: t }),
            }
        },
        RawCommand::Off { .. } => Ok(Intent::Off),
        RawCommand::Brightness { delta, .. } => match delta_of(delta@) {
            Ok(d) => Ok(Intent::AdjustBrightness { delta: d }),
            Err(e) => Err(e),
        },
        RawCommand::Temperature { temperature, .. } => match temperature_of(temperature@) {
            Ok(t) => Ok(Intent::SetTemperature { temperature: t }),
            Err(e) => Err(e),
        },
        RawCommand::Status { .. } => Ok(Intent::Status),
    }
}

pub open spec fn ip_address_of(raw: RawCommand) -> Option<String> {
    match raw {
        RawCommand::On { ip_address, .. } => ip_address,
        RawCommand::Off { ip_address } => ip_address,
        RawCommand::Brightness { ip_address, .. } => ip_address,
        RawCommand::Temperature { ip_address, .. } => ip_address,
        RawCommand::Status { ip_address } => ip_address,
    }
}

/// The invocation a subcommand denotes: its numbers are checked first, then
/// the address.
pub open spec fn invocation_of(raw: RawCommand) -> Result<Invocation, ParseError> {
    match intent_of(raw) {
        Err(e) => Err(e),
        Ok(intent) => match address_of(ip_address_of(raw)) {
            Err(e) => Err(e),
            Ok(address) => Ok(Invocation { intent, address }),
        },
    }
}

fn read_bounded(s: &str, signed: bool, lo: i64, hi: i64) -> (r: Result<i64, ParseError>)
    requires
        -100 <= lo <= hi <= u32::MAX,
    ensures
        r == match bounded_literal(s@, signed, lo as int, hi as int) {
            Ok(v) => Ok::<i64, ParseError>(v as i64),
            Err(e) => Err(e),
        },
{
    match read_literal(s, signed) {
        None => Err(ParseError::MalformedNumber),
        Some(v) => if lo <= v && v <= hi {
            Ok(v)
        } else {
            Err(ParseError::OutOfRange)
        },
    }
}

/// Parses a brightness delta; a leading `-` is part of the number.
pub fn parse_delta(s: &str) -> (r: Result<i8, ParseError>)
    ensures
        r == delta_of(s@),
        r matches Ok(d) ==> -100 <= d <= 100,
{
    match read_bounded(s, true, -100, 100) {
        Ok(v) => Ok(v as i8),
        Err(e) => Err(e),
    }
}

/// Parses an absolute brightness, 0 to 100.
pub fn parse_brightness(s: &str) -> (r: Result<u8, ParseError>)
    ensures
        r == brightness_of(s@),
        r matches Ok(b) ==> b <= 100,
{
    match read_bounded(s, false, 0, 100) {
        Ok(v) => Ok(v as u8),
        Err(e) => Err(e),
    }
}

/// Parses a colour temperature, any `u32`.
pub fn parse_temperature(s: &str) -> (r: Result<u32, ParseError>)
    ensures
        r == temperature_of(s@),
{
    match read_bounded(s, false, 0, 4294967295) {
        Ok(v) => Ok(v as u32),
        Err(e) => Err(e),
    }
}

/// Parses the device address, falling back to the default device.
pub fn parse_address(s: &Option<String>) -> (r: Result<Ipv4Address, ParseError>)
    ensures
        r == address_of(*s),
{
    match s {
        None => Ok(Ipv4Address { a: 192, b: 168, c: 0, d: 25 }),
        Some(t) => match parse_ipv4(t.as_str()) {
            Some(a) => Ok(a),
            None => Err(ParseError::InvalidAddress),
        },
    }
}

fn parse_intent(raw: &RawCommand) -> (r: Result<Intent, ParseError>)
    ensures
        r == intent_of(*raw),
{
    match raw {
        RawCommand::On { brightness, temperature, .. } => {
            let b = match brightness {
                None => Ok(DEFAULT_BRIGHTNESS),
                Some(s) => parse_brightness(s.as_str()),
            };
            let b = match b {
                Ok(b) => b,
                Err(e) => return Err(e),
            };
            let t = match temperature {
                None => Ok(DEFAULT_TEMPERATURE),
                Some(s) => parse_temperature(s.as_str()),
            };
            match t {
                Ok(t) => Ok(Intent::On { brightness: b, temperature: t }),
                Err(e) => Err(e),
            }
        },
        RawCommand::Off { .. } => Ok(Intent::Off),
        RawCommand::Brightness { delta, .. } => match parse_delta(delta.as_str()) {
            Ok(d) => Ok(Intent::AdjustBrightness { delta: d }),
            Err(e) => Err(e),
        },
        RawCommand::Temperature { temperature, .. } => match parse_temperature(
            temperature.as_str(),
        ) {
            Ok(t) => Ok(Intent::SetTemperature { temperature: t }),
            Err(e) => Err(e),
        },
        RawCommand::Status { .. } => Ok(Intent::Status),
    }
}

/// Validates a subcommand into an invocation, without contacting the device.
pub fn parse(raw: &RawCommand) -> (r: Result<Invocation, ParseError>)
    ensures
        r == invocation_of(*raw),
        r matches Ok(inv) ==> inv.intent.wf(),
{
    let intent = match parse_intent(raw) {
        Ok(i) => i,
        Err(e) => return Err(e),
    };
    let ip = match raw {
        RawCommand::On { ip_address, .. } => ip_address,
        RawCommand::Off { ip_address } => ip_address,
        RawCommand::Brightness { ip_address, .. } => ip_address,
        RawCommand::Temperature { ip_address, .. } => ip_address,
        RawCommand::Status { ip_address } => ip_address,
    };
    match parse_address(ip) {
        Ok(address) => Ok(Invocation { intent, address }),
        Err(e) => Err(e),
    }
}

} // verus!
