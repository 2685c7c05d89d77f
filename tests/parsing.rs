use elgato_light::address::{parse_ipv4, Ipv4Address};
use elgato_light::decimal::read_literal;
use elgato_light::intent::{
    parse, parse_address, parse_brightness, parse_delta, parse_temperature, Intent, Invocation,
    ParseError, RawCommand,
};

fn addr(a: u8, b: u8, c: u8, d: u8) -> Ipv4Address {
    Ipv4Address { a, b, c, d }
}

#[test]
fn negative_delta_is_a_value() {
    let raw = RawCommand::Brightness { delta: "-50".to_string(), ip_address: None };
    assert_eq!(
        parse(&raw),
        Ok(Invocation {
            intent: Intent::AdjustBrightness { delta: -50 },
            address: addr(192, 168, 0, 25)
        })
    );
}

#[test]
fn on_without_options_uses_defaults() {
    let raw = RawCommand::On { brightness: None, temperature: None, ip_address: None };
    let inv = parse(&raw).unwrap();
    assert_eq!(inv.intent, Intent::On { brightness: 10, temperature: 3000 });
    assert_eq!(inv.address, addr(192, 168, 0, 25));
}

#[test]
fn on_with_options() {
    let raw = RawCommand::On {
        brightness: Some("75".to_string()),
        temperature: Some("5600".to_string()),
        ip_address: Some("10.0.0.7".to_string()),
    };
    assert_eq!(
        parse(&raw),
        Ok(Invocation {
            intent: Intent::On { brightness: 75, temperature: 5600 },
            address: addr(10, 0, 0, 7)
        })
    );
}

#[test]
fn invalid_address_is_an_input_error() {
    let raw = RawCommand::Temperature {
        temperature: "5000".to_string(),
        ip_address: Some("999.1.1.1".to_string()),
    };
    assert_eq!(parse(&raw), Err(ParseError::InvalidAddress));
}

#[test]
fn numbers_are_checked_before_the_address() {
    let raw = RawCommand::Brightness {
        delta: "abc".to_string(),
        ip_address: Some("999.1.1.1".to_string()),
    };
    assert_eq!(parse(&raw), Err(ParseError::MalformedNumber));
}

#[test]
fn on_brightness_out_of_range() {
    let raw = RawCommand::On {
        brightness: Some("101".to_string()),
        temperature: None,
        ip_address: None,
    };
    assert_eq!(parse(&raw), Err(ParseError::OutOfRange));
}

#[test]
fn on_temperature_malformed() {
    let raw = RawCommand::On {
        brightness: None,
        temperature: Some("warm".to_string()),
        ip_address: None,
    };
    assert_eq!(parse(&raw), Err(ParseError::MalformedNumber));
}

#[test]
fn off_and_status_parse() {
    let off = RawCommand::Off { ip_address: Some("1.2.3.4".to_string()) };
    assert_eq!(parse(&off), Ok(Invocation { intent: Intent::Off, address: addr(1, 2, 3, 4) }));
    let status = RawCommand::Status { ip_address: None };
    assert_eq!(parse(&status).unwrap().intent, Intent::Status);
}

#[test]
fn delta_bounds() {
    assert_eq!(parse_delta("-100"), Ok(-100));
    assert_eq!(parse_delta("100"), Ok(100));
    assert_eq!(parse_delta("+7"), Ok(7));
    assert_eq!(parse_delta("0"), Ok(0));
    assert_eq!(parse_delta("-101"), Err(ParseError::OutOfRange));
    assert_eq!(parse_delta("101"), Err(ParseError::OutOfRange));
    assert_eq!(parse_delta("-99999999999999999999"), Err(ParseError::OutOfRange));
}

#[test]
fn delta_malformed() {
    assert_eq!(parse_delta(""), Err(ParseError::MalformedNumber));
    assert_eq!(parse_delta("-"), Err(ParseError::MalformedNumber));
    assert_eq!(parse_delta("+"), Err(ParseError::MalformedNumber));
    assert_eq!(parse_delta("--5"), Err(ParseError::MalformedNumber));
    assert_eq!(parse_delta("5-"), Err(ParseError::MalformedNumber));
    assert_eq!(parse_delta(" 5"), Err(ParseError::MalformedNumber));
}

#[test]
fn brightness_values() {
    assert_eq!(parse_brightness("0"), Ok(0));
    assert_eq!(parse_brightness("100"), Ok(100));
    assert_eq!(parse_brightness("007"), Ok(7));
    assert_eq!(parse_brightness("101"), Err(ParseError::OutOfRange));
    assert_eq!(parse_brightness("-1"), Err(ParseError::MalformedNumber));
    assert_eq!(parse_brightness("1.5"), Err(ParseError::MalformedNumber));
}

#[test]
fn temperature_values() {
    assert_eq!(parse_temperature("2900"), Ok(2900));
    assert_eq!(parse_temperature("4294967295"), Ok(4294967295));
    assert_eq!(parse_temperature("4294967296"), Err(ParseError::OutOfRange));
    assert_eq!(parse_temperature("-3000"), Err(ParseError::MalformedNumber));
}

#[test]
fn literal_saturates() {
    assert_eq!(read_literal("123", false), Some(123));
    assert_eq!(read_literal("-123", true), Some(-123));
    assert_eq!(read_literal("-123", false), None);
    assert_eq!(read_literal("123456789012345", false), Some(10_000_000_000));
    assert_eq!(read_literal("-123456789012345", true), Some(-10_000_000_000));
}

#[test]
fn ipv4_accepted() {
    assert_eq!(parse_ipv4("192.168.0.25"), Some(addr(192, 168, 0, 25)));
    assert_eq!(parse_ipv4("0.0.0.0"), Some(addr(0, 0, 0, 0)));
    assert_eq!(parse_ipv4("255.255.255.255"), Some(addr(255, 255, 255, 255)));
    assert_eq!(parse_ipv4("10.20.100.9"), Some(addr(10, 20, 100, 9)));
}

#[test]
fn ipv4_rejected() {
    for s in [
        "", "999.1.1.1", "256.0.0.1", "1.1.1", "1.1.1.1.1", "1..1.1", "01.1.1.1", "1.1.1.1 ",
        "a.b.c.d", "1.1.1.", ".1.1.1", "1234.1.1.1", "-1.1.1.1", "+1.1.1.1",
    ] {
        assert_eq!(parse_ipv4(s), None, "{}", s);
    }
}

#[test]
fn address_default_and_error() {
    assert_eq!(parse_address(&None), Ok(addr(192, 168, 0, 25)));
    assert_eq!(parse_address(&Some("1.1.1.x".to_string())), Err(ParseError::InvalidAddress));
}
