use dcs_rich_presence::presence::{ClockTime, Command, Message, Payload, PresenceState};
use dcs_rich_presence::telemetry::{decode_line, Telemetry, TelemetryEvent};

const START: i64 = 1_700_000_000;

fn at(hour: u8, minute: u8, second: u8) -> ClockTime {
    ClockTime { hour, minute, second }
}

fn telemetry(line: &str) -> Telemetry {
    match decode_line(line) {
        Some(TelemetryEvent::Sample(t)) => t,
        other => panic!("not a sample: {:?}", other),
    }
}

fn published(c: Command) -> Payload {
    match c {
        Command::Publish(p) => p,
        other => panic!("not a publish: {:?}", other),
    }
}

fn send(state: &mut PresenceState, line: &str) -> Payload {
    published(state.apply(Message::TelemetryReceived(telemetry(line)), at(12, 0, 0)))
}

#[test]
fn scenario_known_vehicle() {
    let mut s = PresenceState::new(START);
    let p = send(&mut s, "telem Maverick,F-16C_50,250.0,3000.0,120");
    assert_eq!(p.headline, "Maverick in F-16CM bl.50");
    assert_eq!(p.detail.as_deref(), Some("498 knots at 10k feet"));
    assert_eq!(p.asset_key.as_deref(), Some("f-16c_50"));
    assert_eq!(p.asset_label.as_deref(), Some("F-16CM bl.50"));
    assert_eq!(p.session_start, START);
}

#[test]
fn scenario_unknown_vehicle_slow() {
    let mut s = PresenceState::new(START);
    let p = send(&mut s, "telem Pilot,UnknownJet,5.0,0.0,0");
    assert_eq!(p.headline, "Pilot in UnknownJet");
    assert_eq!(p.detail.as_deref(), Some("0 knots at 0k feet"));
    assert_eq!(p.asset_key.as_deref(), Some("unknownjet"));
    assert_eq!(p.asset_label.as_deref(), Some("UnknownJet"));
}

#[test]
fn scenario_callsign_overrides_pilot() {
    let mut s = PresenceState::new(START);
    assert_eq!(s.apply(Message::CallsignChanged("Viper".to_string()), at(12, 0, 0)), Command::Nothing);
    let p = send(&mut s, "telem Maverick,A-10C_2,100.0,500.0,15");
    assert_eq!(p.headline, "Viper in A10-C");
    assert!(!p.headline.contains("Maverick"));
}

#[test]
fn scenario_bye_returns_to_idle() {
    let mut s = PresenceState::new(START);
    s.apply(Message::Connect, at(12, 0, 0));
    send(&mut s, "telem Maverick,F-16C_50,250.0,3000.0,120");
    let bye = match decode_line("bye") {
        Some(e) => Message::from_event(e),
        None => panic!("bye not decoded"),
    };
    let p = published(s.apply(bye, at(12, 1, 2)));
    assert_eq!(p.headline, "Mission planning");
    assert_eq!(p.detail, None);
    assert_eq!(p.asset_key, None);
    assert_eq!(p.session_start, START);
    assert!(s.connected());
    assert_eq!(s.last_update(), Some(at(12, 1, 2)));
}

#[test]
fn speed_threshold_boundary() {
    let mut s = PresenceState::new(START);
    let p = send(&mut s, "telem P,X,10.0,0.0,0");
    assert_eq!(p.detail.as_deref(), Some("0 knots at 0k feet"));
    let p = send(&mut s, "telem P,X,10.0001,0.0,0");
    assert_eq!(p.detail.as_deref(), Some("20 knots at 0k feet"));
}

#[test]
fn vehicle_label_lookup() {
    let mut s = PresenceState::new(START);
    let p = send(&mut s, "telem P,A-10C_2,0,0,0");
    assert_eq!(p.asset_label.as_deref(), Some("A10-C"));
    assert_eq!(p.asset_key.as_deref(), Some("a-10c_2"));
    let p = send(&mut s, "telem P,a-10c_2,0,0,0");
    assert_eq!(p.asset_label.as_deref(), Some("a-10c_2"));
    let p = send(&mut s, "telem P,Su-27,0,0,0");
    assert_eq!(p.asset_label.as_deref(), Some("Su-27"));
    assert_eq!(p.asset_key.as_deref(), Some("su-27"));
}

#[test]
fn clearing_callsign_twice_leaves_none() {
    let mut s = PresenceState::new(START);
    s.apply(Message::CallsignChanged("Viper".to_string()), at(1, 0, 0));
    assert_eq!(s.callsign_text(), "Viper");
    s.apply(Message::CallsignChanged(String::new()), at(1, 0, 0));
    assert_eq!(s.callsign_text(), "");
    s.apply(Message::CallsignChanged(String::new()), at(1, 0, 0));
    assert_eq!(s.callsign_text(), "");
    let p = send(&mut s, "telem Maverick,F-16C_50,250.0,3000.0,120");
    assert_eq!(p.headline, "Maverick in F-16CM bl.50");
}

#[test]
fn placeholder_name_flies_alone() {
    let mut s = PresenceState::new(START);
    let p = send(&mut s, "telem New callsign,F-16C_50,250.0,3000.0,120");
    assert_eq!(p.headline, "flying F-16CM bl.50");
}

#[test]
fn negative_altitude_keeps_its_sign() {
    let mut s = PresenceState::new(START);
    let p = send(&mut s, "telem P,X,0.0,-500.0,0");
    assert_eq!(p.detail.as_deref(), Some("0 knots at -2k feet"));
    let p = send(&mut s, "telem P,X,0.0,-0.0,0");
    assert_eq!(p.detail.as_deref(), Some("0 knots at -0k feet"));
}

#[test]
fn rounding_of_speed_and_altitude() {
    let mut s = PresenceState::new(START);
    let p = send(&mut s, "telem P,X,100.0,12345.0,0");
    assert_eq!(p.detail.as_deref(), Some("199 knots at 41k feet"));
}

#[test]
fn connect_publishes_idle() {
    let mut s = PresenceState::new(START);
    assert!(!s.connected());
    assert_eq!(s.status_text(), "Connecting to discord...");
    match s.apply(Message::Connect, at(0, 0, 0)) {
        Command::ConnectAndPublish(p) => {
            assert_eq!(p.headline, "Mission planning");
            assert_eq!(p.session_start, START);
        }
        other => panic!("unexpected {:?}", other),
    }
    assert!(s.connected());
    assert_eq!(s.status_text(), "Connected to discord.");
}

#[test]
fn close_is_terminal() {
    let mut s = PresenceState::new(START);
    assert_eq!(s.apply(Message::CloseRequested, at(0, 0, 0)), Command::Close);
    assert!(s.closed());
    assert_eq!(s.apply(Message::ClientDisconnected, at(0, 0, 1)), Command::Nothing);
    assert_eq!(s.apply(Message::CallsignChanged("X".to_string()), at(0, 0, 1)), Command::Nothing);
    assert_eq!(s.last_update(), None);
    assert_eq!(s.callsign_text(), "");
}

#[test]
fn last_update_text_shows_clock() {
    let mut s = PresenceState::new(START);
    assert_eq!(s.last_update_text(), "Waiting for telemetry...");
    send(&mut s, "telem P,X,0,0,0");
    let _ = s.apply(Message::ClientDisconnected, at(9, 5, 7));
    assert_eq!(s.last_update_text(), "Last updated at 09:05:07");
}

#[test]
fn update_without_clock_for_callsign() {
    let mut s = PresenceState::new(START);
    assert_eq!(s.update(Message::CallsignChanged("Ace".to_string())), Ok(Command::Nothing));
    assert_eq!(s.callsign_text(), "Ace");
}
