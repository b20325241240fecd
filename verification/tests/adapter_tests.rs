use pentair_daemon::adapter::{
    adapter_address, command_followup, connection_lost_notice, detect_transitions,
    discovered_address, light_mode_name, next_backoff, BodySnapshot, CommandKind, LinkEvent,
    Reconnect, Refresh, SystemSnapshot,
};
use pentair_daemon::routes::light_mode_to_command;

#[test]
fn addresses_get_a_port() {
    assert_eq!(adapter_address(""), None);
    assert_eq!(adapter_address("192.168.1.20"), Some("192.168.1.20:80".to_string()));
    assert_eq!(adapter_address("host:6681"), Some("host:6681".to_string()));
    assert_eq!(discovered_address(&[192, 168, 0, 7], 80), "192.168.0.7:80");
}

#[test]
fn backoff_doubles_to_a_minute() {
    let mut b = 1;
    let mut seen = Vec::new();
    for _ in 0..8 {
        seen.push(b);
        b = next_backoff(b);
    }
    assert_eq!(seen, vec![1, 2, 4, 8, 16, 32, 60, 60]);
}

#[test]
fn reconnect_loop_waits_and_resets() {
    let mut r = Reconnect::new();
    let s = r.step(LinkEvent::ConnectFailed);
    assert_eq!(s.sleep_secs, Some(1));
    let s = r.step(LinkEvent::DiscoveryFailed);
    assert_eq!(s.sleep_secs, Some(2));
    let s = r.step(LinkEvent::Connected);
    assert_eq!(s.sleep_secs, None);
    let s = r.step(LinkEvent::SessionEnded);
    assert_eq!(s.sleep_secs, Some(1));
    assert!(s.notify_lost);
    assert_eq!(r.backoff_secs, 2);
}

#[test]
fn light_modes_round_trip() {
    for name in ["off", "on", "set", "sync", "swim", "party", "romantic", "caribbean", "american",
                 "sunset", "royal", "blue", "green", "red", "white", "purple"] {
        let code = light_mode_to_command(name).unwrap();
        assert_eq!(light_mode_name(code), name);
    }
    assert_eq!(light_mode_name(11), "save");
    assert_eq!(light_mode_name(12), "recall");
    assert_eq!(light_mode_name(99), "unknown");
}

#[test]
fn command_followups() {
    let f = command_followup(CommandKind::SetCircuit, true);
    assert_eq!(f.refresh, Refresh::Runtime);
    assert!(f.push_status && f.keep_connection);
    let f = command_followup(CommandKind::SetHeatMode, false);
    assert_eq!(f.refresh, Refresh::Nothing);
    assert!(!f.keep_connection);
    let f = command_followup(CommandKind::SetLightCommand { command: 7 }, true);
    assert_eq!(f.light_mode, Some("caribbean"));
    assert!(!f.push_status);
    let f = command_followup(CommandKind::SetLightCommand { command: 7 }, false);
    assert_eq!(f.light_mode, None);
    let f = command_followup(CommandKind::RefreshAll, false);
    assert_eq!(f.refresh, Refresh::Everything);
    assert!(f.keep_connection);
    let f = command_followup(CommandKind::CancelDelay, true);
    assert_eq!(f.refresh, Refresh::Nothing);
    assert!(f.keep_connection);
}

fn body(on: bool, t: i32, sp: i32, heating: &str) -> BodySnapshot {
    BodySnapshot { on, temperature: t, setpoint: sp, heating: heating.to_string() }
}

fn snap(spa: BodySnapshot, pool: BodySnapshot, freeze: bool) -> SystemSnapshot {
    SystemSnapshot { pool: Some(pool), spa: Some(spa), freeze_protection: freeze, temp_unit: "°F".to_string() }
}

#[test]
fn transitions_become_notices() {
    let prev = snap(body(true, 100, 104, "off"), body(true, 80, 82, "off"), false);
    let curr = snap(body(true, 104, 104, "heater"), body(true, 80, 82, "solar"), true);
    let notices = detect_transitions(&prev, &curr);
    let pairs: Vec<(String, String)> = notices.into_iter().map(|n| (n.title, n.body)).collect();
    assert_eq!(
        pairs,
        vec![
            ("Spa Ready".to_string(), "Spa has reached 104°F.".to_string()),
            ("Freeze Protection".to_string(), "Freeze protection has been activated.".to_string()),
            ("Spa Heater Started".to_string(), "Spa heater is now active (heater).".to_string()),
            ("Pool Heater Started".to_string(), "Pool heater is now active (solar).".to_string()),
        ]
    );
    assert!(detect_transitions(&curr, &snap(body(true, 104, 104, "heater"), body(true, 80, 82, "solar"), true)).is_empty());
    let lost = connection_lost_notice();
    assert_eq!(lost.title, "Connection Lost");
}
