use dead_man_switch::config::Config;
use dead_man_switch::flic::{FlicMonitor, PressKind};
use dead_man_switch::network::NetworkListener;
use dead_man_switch::telegram::{parse_command, BotCommand, TelegramListener};
use dead_man_switch::timer::{HeartbeatTick, HeartbeatTimer};
use dead_man_switch::usb::UsbMonitor;

fn test_config() -> Config {
    Config::new(
        "123456:secret-credential".to_string(),
        30,
        45370,
        "trigger_dms".to_string(),
        "execute".to_string(),
        0x090c,
        0x1000,
        "10.0.0.1".to_string(),
        5551,
    )
    .expect("valid configuration")
}

#[test]
fn usb_duplicate_insertion_evaluates_only_once() {
    let mut m = UsbMonitor::new(&test_config());
    // A non-matching device: inserted, no fire.
    assert!(!m.observe(0x1111, 0x2222));
    // The same identifier again: not re-evaluated, no state change.
    assert!(!m.observe(0x1111, 0x2222));
    // The matching pair fires on first insertion...
    assert!(m.observe(0x090c, 0x1000));
    // ...and its re-enumeration never fires again.
    assert!(!m.observe(0x090c, 0x1000));
}

#[test]
fn usb_pair_is_matched_as_a_whole() {
    let mut m = UsbMonitor::new(&test_config());
    // Right vendor with wrong product, and the reverse: no fire.
    assert!(!m.observe(0x090c, 0xffff));
    assert!(!m.observe(0xffff, 0x1000));
}

#[test]
fn usb_scan_fires_on_new_matching_device() {
    let mut m = UsbMonitor::new(&test_config());
    let first_poll: Vec<(u16, u16)> = vec![(0x1111, 0x2222), (0x3333, 0x4444)];
    assert!(!m.observe_scan(&first_poll));
    let second_poll: Vec<(u16, u16)> = vec![(0x1111, 0x2222), (0x090c, 0x1000)];
    assert!(m.observe_scan(&second_poll));
    // After the fire, re-polling the same devices changes nothing.
    assert!(!m.observe_scan(&second_poll));
}

#[test]
fn network_payload_matches_case_insensitively() {
    let mut m = NetworkListener::new(&test_config());
    assert!(!m.on_datagram("something else"));
    assert!(!m.on_datagram("trigger_dmsX"));
    assert!(m.on_datagram("TRIGGER_dms"));
}

#[test]
fn network_fires_at_most_once() {
    let mut m = NetworkListener::new(&test_config());
    assert!(m.on_datagram("trigger_dms"));
    assert!(!m.on_datagram("trigger_dms"));
}

#[test]
fn command_parser_understands_the_three_verbs() {
    assert_eq!(parse_command("/alive"), Some(BotCommand::Alive));
    assert_eq!(parse_command("/status"), Some(BotCommand::Status));
    assert_eq!(parse_command("/dms"), Some(BotCommand::Dms(String::new())));
    assert_eq!(
        parse_command("/dms execute"),
        Some(BotCommand::Dms("execute".to_string()))
    );
    assert_eq!(
        parse_command("/dms two words"),
        Some(BotCommand::Dms("two words".to_string()))
    );
    assert_eq!(parse_command("/dmsx"), None);
    assert_eq!(parse_command("hello"), None);
    assert_eq!(parse_command(""), None);
    assert_eq!(parse_command("/ALIVE"), None);
}

#[test]
fn wrong_parameter_does_not_fire_right_parameter_fires_once() {
    let mut m = TelegramListener::new(&test_config());
    // Correct command name, wrong parameter: no event.
    assert!(!m.on_command("wrong"));
    assert!(!m.on_command(""));
    // Correct name and parameter: exactly one event.
    assert!(m.on_command("execute"));
    assert!(!m.on_command("execute"));
}

#[test]
fn flic_fires_on_hold_only() {
    let mut m = FlicMonitor::new();
    assert!(!m.on_press(PressKind::SingleClick));
    assert!(!m.on_press(PressKind::DoubleClick));
    assert!(m.on_press(PressKind::Hold));
    assert!(!m.on_press(PressKind::Hold));
}

#[test]
fn heartbeat_reset_moves_expiry() {
    // Timeout 30 s, armed at t=0; a reset at t=29 moves expiry to t=59.
    let mut t = HeartbeatTimer::new(&test_config(), 0);
    for now in 1..=29u64 {
        assert!(matches!(t.tick(now), HeartbeatTick::Armed { .. }));
    }
    t.reset(29);
    for now in 30..=58u64 {
        assert!(matches!(t.tick(now), HeartbeatTick::Armed { .. }));
    }
    match t.tick(59) {
        HeartbeatTick::Expired { notify_endpoint } => assert_eq!(notify_endpoint, None),
        HeartbeatTick::Armed { .. } => panic!("should have expired at t=59"),
    }
}

#[test]
fn heartbeat_expires_at_timeout_without_reset() {
    let mut t = HeartbeatTimer::new(&test_config(), 0);
    assert!(matches!(t.tick(29), HeartbeatTick::Armed { remaining: 1 }));
    assert!(matches!(t.tick(30), HeartbeatTick::Expired { .. }));
    // Expiry is terminal: the monitor never fires a second time.
    assert!(matches!(t.tick(31), HeartbeatTick::Armed { .. }));
}

#[test]
fn heartbeat_status_never_mutates() {
    let mut t = HeartbeatTimer::new(&test_config(), 0);
    assert_eq!(t.remaining(10), 20);
    assert_eq!(t.remaining(10), 20);
    assert_eq!(t.remaining(29), 1);
    // The queries above moved nothing: expiry still happens at t=30.
    assert!(matches!(t.tick(30), HeartbeatTick::Expired { .. }));
}

#[test]
fn heartbeat_reset_is_idempotent() {
    let mut t = HeartbeatTimer::new(&test_config(), 0);
    t.reset(7);
    t.reset(7);
    assert_eq!(t.remaining(7), 30);
    assert!(matches!(t.tick(36), HeartbeatTick::Armed { remaining: 1 }));
    assert!(matches!(t.tick(37), HeartbeatTick::Expired { .. }));
}

#[test]
fn heartbeat_expiry_hands_out_the_recorded_endpoint() {
    let mut t = HeartbeatTimer::new(&test_config(), 0);
    t.note_endpoint(424242);
    match t.tick(30) {
        HeartbeatTick::Expired { notify_endpoint } => assert_eq!(notify_endpoint, Some(424242)),
        HeartbeatTick::Armed { .. } => panic!("should have expired"),
    }
}

#[test]
fn warning_thresholds_and_remaining_parts() {
    assert!(dead_man_switch::timer::should_warn(60));
    assert!(dead_man_switch::timer::should_warn(30));
    assert!(dead_man_switch::timer::should_warn(10));
    assert!(!dead_man_switch::timer::should_warn(61));
    assert!(!dead_man_switch::timer::should_warn(0));
    assert_eq!(dead_man_switch::timer::remaining_parts(3600), (1, 0, 0));
    assert_eq!(dead_man_switch::timer::remaining_parts(3725), (1, 2, 5));
    assert_eq!(dead_man_switch::timer::remaining_parts(59), (0, 0, 59));
    assert_eq!(dead_man_switch::timer::remaining_parts(0), (0, 0, 0));
}
