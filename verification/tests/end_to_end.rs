use dead_man_switch::actions::{ActionExecutor, ActionStep};
use dead_man_switch::bus::TriggerBus;
use dead_man_switch::config::Config;
use dead_man_switch::event::{TriggerEvent, TriggerSource};
use dead_man_switch::network::NetworkListener;
use dead_man_switch::supervisor::{parse_modes, ActiveModeSet, Mode};
use dead_man_switch::timer::{HeartbeatTick, HeartbeatTimer};

/// Arm the network and heartbeat monitors with a five-second timeout, send
/// no network packet, and drive the clock: after five seconds the
/// heartbeat monitor fires, the bus delivers one timer-sourced event, and
/// the executor sequence runs with dismount and power-off each reached
/// exactly once.
#[test]
fn heartbeat_timeout_drives_the_whole_sequence() {
    let config = Config::new(
        "123456:secret-credential".to_string(),
        5,
        45370,
        "trigger_dms".to_string(),
        "execute".to_string(),
        0x090c,
        0x1000,
        "10.0.0.1".to_string(),
        5551,
    )
    .expect("valid configuration");

    // Supervisor: both requested monitors start (no probe fails).
    let requested = parse_modes("net, timer");
    let active = ActiveModeSet::build(&requested, &vec![]).expect("monitors armed");
    assert!(active.is_active(Mode::Net));
    assert!(active.is_active(Mode::Timer));

    let mut bus = TriggerBus::new();
    let mut network = NetworkListener::new(&config);
    let mut heartbeat = HeartbeatTimer::new(&config, 0);

    // No network packet arrives; the countdown runs a second at a time.
    let mut fired_source = None;
    for now in 1..=10u64 {
        if let HeartbeatTick::Expired { .. } = heartbeat.tick(now) {
            bus.send(TriggerEvent::new_at(TriggerSource::Timer, now));
            fired_source = Some(now);
            break;
        }
    }
    assert_eq!(fired_source, Some(5), "expiry must come at the timeout");
    assert!(!network.on_datagram("unrelated noise"));

    // The single consumer observes exactly one event, timer-sourced.
    let event = bus.recv().expect("one event was delivered");
    assert_eq!(event.source, TriggerSource::Timer);
    assert!(bus.recv().is_none());

    // The executor runs its sequence once, in order.
    let mut exec = ActionExecutor::new(config);
    let mut dismounts = 0;
    let mut power_offs = 0;
    let mut order = Vec::new();
    while let Some(step) = exec.next_action() {
        match step {
            ActionStep::Dismount => dismounts += 1,
            ActionStep::PowerOff => power_offs += 1,
            _ => {}
        }
        order.push(step);
        exec.advance(true);
    }
    assert_eq!(dismounts, 1);
    assert_eq!(power_offs, 1);
    assert_eq!(
        order,
        vec![
            ActionStep::Broadcast,
            ActionStep::GraceDelay,
            ActionStep::Dismount,
            ActionStep::PowerOff
        ]
    );
}
