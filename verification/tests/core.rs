use dead_man_switch::actions::{ActionExecutor, ActionStep, Platform};
use dead_man_switch::bus::TriggerBus;
use dead_man_switch::error::DmsError;
use dead_man_switch::event::{TriggerEvent, TriggerSource};
use dead_man_switch::ui::AlertWindow;

#[test]
fn event_new_records_source() {
    let e = TriggerEvent::new(TriggerSource::Network);
    assert_eq!(e.source, TriggerSource::Network);
}

#[test]
fn event_new_at_records_both_fields() {
    let e = TriggerEvent::new_at(TriggerSource::Usb, 1234);
    assert_eq!(e.source, TriggerSource::Usb);
    assert_eq!(e.timestamp, 1234);
}

#[test]
fn bus_delivers_first_sent_event() {
    let mut bus = TriggerBus::new();
    bus.send(TriggerEvent::new_at(TriggerSource::Timer, 10));
    bus.send(TriggerEvent::new_at(TriggerSource::Usb, 11));
    bus.send(TriggerEvent::new_at(TriggerSource::Flic, 12));
    let got = bus.recv().expect("an event was sent");
    assert_eq!(got.source, TriggerSource::Timer);
    assert_eq!(got.timestamp, 10);
}

#[test]
fn bus_recv_empty_is_none() {
    let mut bus = TriggerBus::new();
    assert!(bus.recv().is_none());
}

#[test]
fn bus_recv_is_meaningful_once() {
    let mut bus = TriggerBus::new();
    bus.send(TriggerEvent::new_at(TriggerSource::Network, 1));
    bus.send(TriggerEvent::new_at(TriggerSource::Telegram, 2));
    assert!(bus.recv().is_some());
    assert!(bus.recv().is_none());
    bus.send(TriggerEvent::new_at(TriggerSource::Flic, 3));
    assert!(bus.recv().is_none());
}

#[test]
fn plan_is_broadcast_delay_dismount_poweroff() {
    let plan = ActionExecutor::plan();
    assert_eq!(
        plan,
        vec![
            ActionStep::Broadcast,
            ActionStep::GraceDelay,
            ActionStep::Dismount,
            ActionStep::PowerOff
        ]
    );
}

#[test]
fn failed_steps_do_not_prevent_power_off() {
    let config = dead_man_switch::config::Config::new(
        "123456:secret".to_string(),
        30,
        45370,
        "trigger_dms".to_string(),
        "execute".to_string(),
        0x090c,
        0x1000,
        "10.0.0.1".to_string(),
        5551,
    )
    .expect("valid configuration");
    let mut exec = ActionExecutor::new(config);
    let mut performed = Vec::new();
    // Simulate the broadcast and the dismount failing: the sequence must
    // still reach power-off, in order.
    while let Some(step) = exec.next_action() {
        performed.push(step);
        let simulated_outcome = matches!(step, ActionStep::GraceDelay | ActionStep::PowerOff);
        exec.advance(simulated_outcome);
    }
    assert_eq!(
        performed,
        vec![
            ActionStep::Broadcast,
            ActionStep::GraceDelay,
            ActionStep::Dismount,
            ActionStep::PowerOff
        ]
    );
    let power_offs = performed
        .iter()
        .filter(|s| matches!(s, ActionStep::PowerOff))
        .count();
    assert_eq!(power_offs, 1);
}

#[test]
fn veracrypt_path_per_platform() {
    assert_eq!(
        ActionExecutor::veracrypt_path(Platform::Windows),
        "C:\\Program Files\\VeraCrypt\\VeraCrypt.exe"
    );
    assert_eq!(
        ActionExecutor::veracrypt_path(Platform::MacOs),
        "/Applications/VeraCrypt.app/Contents/MacOS/VeraCrypt"
    );
    assert_eq!(ActionExecutor::veracrypt_path(Platform::Linux), "veracrypt");
}

#[test]
fn dismount_args_per_platform() {
    assert_eq!(
        ActionExecutor::dismount_args(Platform::Windows),
        vec!["/d", "/f", "/w", "/q", "/s"]
    );
    assert_eq!(ActionExecutor::dismount_args(Platform::Linux), vec!["-d", "-f"]);
    assert_eq!(ActionExecutor::dismount_args(Platform::MacOs), vec!["-d", "-f"]);
}

#[test]
fn shutdown_invocation_per_platform() {
    let (cmd, args) = ActionExecutor::shutdown_invocation(Platform::Windows);
    assert_eq!(cmd, "shutdown");
    assert_eq!(args, vec!["/p", "/f"]);
    let (cmd, args) = ActionExecutor::shutdown_invocation(Platform::MacOs);
    assert_eq!(cmd, "halt");
    assert_eq!(args, vec!["-q"]);
    let (cmd, args) = ActionExecutor::shutdown_invocation(Platform::Linux);
    assert_eq!(cmd, "systemctl");
    assert_eq!(args, vec!["poweroff", "-f"]);
}

#[test]
fn alert_window_counts_down_and_flashes() {
    let mut w = AlertWindow::new_at(0);
    assert_eq!(w.remaining_secs(), 3);
    assert!(w.is_flash_on());
    // Before half a second nothing changes at all.
    w.advance(499);
    assert_eq!(w.remaining_secs(), 3);
    assert!(w.is_flash_on());
    // At 999 ms the flash has toggled but the countdown has not stepped.
    w.advance(999);
    assert_eq!(w.remaining_secs(), 3);
    assert!(!w.is_flash_on());
    // At one second the countdown steps.
    w.advance(1000);
    assert_eq!(w.remaining_secs(), 2);
    assert!(!w.is_flash_on());
    w.advance(2000);
    assert_eq!(w.remaining_secs(), 1);
    assert!(w.is_flash_on());
    w.advance(3000);
    assert_eq!(w.remaining_secs(), 0);
    // The countdown never goes below zero.
    w.advance(4000);
    assert_eq!(w.remaining_secs(), 0);
}

#[test]
fn alert_window_default_starts_at_three() {
    let w = AlertWindow::default();
    assert_eq!(w.remaining_secs(), 3);
    assert!(w.is_flash_on());
}

#[test]
fn error_detail_carries_the_text() {
    let e = DmsError::Config("bad value".to_string());
    assert_eq!(e.detail().as_str(), "bad value");
    let e = DmsError::Network("socket closed".to_string());
    assert_eq!(e.detail().as_str(), "socket closed");
    let e = DmsError::Usb("enumeration failed".to_string());
    assert_eq!(e.detail().as_str(), "enumeration failed");
    let e = DmsError::Telegram("unreachable".to_string());
    assert_eq!(e.detail().as_str(), "unreachable");
    let e = DmsError::Flic("hub gone".to_string());
    assert_eq!(e.detail().as_str(), "hub gone");
    let e = DmsError::Join("task panicked".to_string());
    assert_eq!(e.detail().as_str(), "task panicked");
}
