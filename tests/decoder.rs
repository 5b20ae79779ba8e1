use dcs_rich_presence::numeral::{parse_decimal, parse_u64, Decimal};
use dcs_rich_presence::telemetry::{decode_datagram, decode_line, encode_line, Telemetry, TelemetryEvent};

fn chars(s: &str) -> Vec<char> {
    s.chars().collect()
}

fn dec(negative: bool, digits: u64, scale: u8) -> Decimal {
    Decimal { negative, digits, scale }
}

#[test]
fn valid_sample_matches_its_fields() {
    let e = decode_line("telem Maverick,F-16C_50,250.0,3000.0,120");
    assert_eq!(
        e,
        Some(TelemetryEvent::Sample(Telemetry {
            name: "Maverick".to_string(),
            vehicle: "F-16C_50".to_string(),
            ias: dec(false, 2500, 1),
            alt_bar: dec(false, 30000, 1),
            sim_time: 120,
        }))
    );
}

#[test]
fn simulator_formatted_sample_decodes() {
    let e = decode_line("telem Big Pilot,A-10C_2,123.456000,1500.250000,30");
    assert_eq!(
        e,
        Some(TelemetryEvent::Sample(Telemetry {
            name: "Big Pilot".to_string(),
            vehicle: "A-10C_2".to_string(),
            ias: dec(false, 123456000, 6),
            alt_bar: dec(false, 1500250000, 6),
            sim_time: 30,
        }))
    );
}

#[test]
fn bye_is_one_disconnect() {
    assert_eq!(decode_line("bye"), Some(TelemetryEvent::Disconnected));
    assert_eq!(decode_datagram(b"bye"), Some(TelemetryEvent::Disconnected));
}

#[test]
fn bye_with_extra_text_is_discarded() {
    assert_eq!(decode_line("bye now"), None);
    assert_eq!(decode_line("bye "), None);
}

#[test]
fn line_without_space_is_discarded() {
    assert_eq!(decode_line("telemMaverick,F-16C_50,250.0,3000.0,120"), None);
    assert_eq!(decode_line("hello"), None);
    assert_eq!(decode_line(""), None);
}

#[test]
fn other_command_is_discarded() {
    assert_eq!(decode_line("tele Maverick,F-16C_50,250.0,3000.0,120"), None);
    assert_eq!(decode_line("TELEM Maverick,F-16C_50,250.0,3000.0,120"), None);
}

#[test]
fn wrong_field_count_is_discarded() {
    assert_eq!(decode_line("telem Maverick,F-16C_50,250.0,3000.0"), None);
    assert_eq!(decode_line("telem Maverick,F-16C_50,250.0,3000.0,120,7"), None);
    assert_eq!(decode_line("telem "), None);
}

#[test]
fn non_numeric_field_is_discarded() {
    assert_eq!(decode_line("telem Maverick,F-16C_50,fast,3000.0,120"), None);
    assert_eq!(decode_line("telem Maverick,F-16C_50,250.0,high,120"), None);
    assert_eq!(decode_line("telem Maverick,F-16C_50,250.0,3000.0,-1"), None);
    assert_eq!(decode_line("telem Maverick,F-16C_50,250.0,3000.0,1.5"), None);
    assert_eq!(decode_line("telem Maverick,F-16C_50,,3000.0,120"), None);
}

#[test]
fn non_utf8_datagram_is_discarded() {
    assert_eq!(decode_datagram(&[0xff, 0xfe, 0x20]), None);
    let mut b = b"telem Maverick,F-16C_50,250.0,3000.0,120".to_vec();
    b.push(0xc3);
    assert_eq!(decode_datagram(&b), None);
}

#[test]
fn utf8_datagram_decodes_like_its_line() {
    let line = "telem Jürgen,F-16C_50,250.0,3000.0,120";
    assert_eq!(decode_datagram(line.as_bytes()), decode_line(line));
    assert!(decode_line(line).is_some());
}

#[test]
fn oversized_datagram_is_discarded() {
    let mut b = b"telem Maverick,F-16C_50,250.0,3000.0,".to_vec();
    while b.len() < 65528 {
        b.push(b'1');
    }
    assert_eq!(decode_datagram(&b), None);
}

#[test]
fn decimal_numerals() {
    assert_eq!(parse_decimal(&chars("250.0")), Some(dec(false, 2500, 1)));
    assert_eq!(parse_decimal(&chars("-0.5")), Some(dec(true, 5, 1)));
    assert_eq!(parse_decimal(&chars("+12")), Some(dec(false, 12, 0)));
    assert_eq!(parse_decimal(&chars("5.")), Some(dec(false, 5, 0)));
    assert_eq!(parse_decimal(&chars(".5")), Some(dec(false, 5, 1)));
    assert_eq!(parse_decimal(&chars("-0")), Some(dec(true, 0, 0)));
    assert_eq!(parse_decimal(&chars(".")), None);
    assert_eq!(parse_decimal(&chars("-")), None);
    assert_eq!(parse_decimal(&chars("1.2.3")), None);
    assert_eq!(parse_decimal(&chars("1e3")), None);
    assert_eq!(parse_decimal(&chars("0.1234567890123456789")), Some(dec(false, 1234567890123456789, 19)));
    assert_eq!(parse_decimal(&chars("0.12345678901234567890")), None);
    assert_eq!(parse_decimal(&chars("99999999999999999999")), None);
}

#[test]
fn unsigned_numerals() {
    assert_eq!(parse_u64(&chars("120")), Some(120));
    assert_eq!(parse_u64(&chars("+7")), Some(7));
    assert_eq!(parse_u64(&chars("18446744073709551615")), Some(u64::MAX));
    assert_eq!(parse_u64(&chars("18446744073709551616")), None);
    assert_eq!(parse_u64(&chars("+")), None);
    assert_eq!(parse_u64(&chars("")), None);
    assert_eq!(parse_u64(&chars("-1")), None);
}

fn sample(name: &str, vehicle: &str, ias: Decimal, alt_bar: Decimal, sim_time: u64) -> Telemetry {
    Telemetry { name: name.to_string(), vehicle: vehicle.to_string(), ias, alt_bar, sim_time }
}

#[test]
fn encode_writes_simulator_format() {
    let t = sample("Maverick", "F-16C_50", dec(false, 2500, 1), dec(false, 30000, 1), 120);
    assert_eq!(encode_line(&t), "telem Maverick,F-16C_50,250.0,3000.0,120");
    let t = sample("A B", "X", dec(false, 5, 3), dec(true, 12, 0), 0);
    assert_eq!(encode_line(&t), "telem A B,X,0.005,-12,0");
}

#[test]
fn encode_then_decode_round_trips() {
    let cases = vec![
        sample("Maverick", "F-16C_50", dec(false, 2500, 1), dec(false, 30000, 1), 120),
        sample("", "", dec(true, 0, 0), dec(false, 0, 19), u64::MAX),
        sample("New callsign", "A-10C_2", dec(false, u64::MAX, 19), dec(true, 7, 2), 15),
        sample("Jürgen Ü", "Su 27", dec(false, 1, 0), dec(false, 123456000, 6), 1),
    ];
    for t in cases {
        let line = encode_line(&t);
        assert_eq!(decode_line(&line), Some(TelemetryEvent::Sample(t.clone())));
        assert_eq!(decode_datagram(line.as_bytes()), Some(TelemetryEvent::Sample(t)));
    }
}
