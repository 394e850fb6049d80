use dead_man_switch::config::Config;
use dead_man_switch::error::DmsError;
use dead_man_switch::ipv4::{format_ipv4, parse_ipv4, Ipv4Addr};
use dead_man_switch::supervisor::{parse_modes, ActiveModeSet, Mode};

fn make(timeout: u64, port: u16, ip: &str) -> Result<Config, DmsError> {
    Config::new(
        "123456:secret-credential".to_string(),
        timeout,
        port,
        "trigger_dms".to_string(),
        "execute".to_string(),
        0x090c,
        0x1000,
        ip.to_string(),
        5551,
    )
}

#[test]
fn ipv4_parses_well_formed_text() {
    assert_eq!(
        parse_ipv4("192.168.1.5"),
        Some(Ipv4Addr { a: 192, b: 168, c: 1, d: 5 })
    );
    assert_eq!(parse_ipv4("0.0.0.0"), Some(Ipv4Addr { a: 0, b: 0, c: 0, d: 0 }));
    assert_eq!(
        parse_ipv4("255.255.255.255"),
        Some(Ipv4Addr { a: 255, b: 255, c: 255, d: 255 })
    );
    // Short leading-zero runs are within the accepted grammar.
    assert_eq!(parse_ipv4("01.2.3.4"), Some(Ipv4Addr { a: 1, b: 2, c: 3, d: 4 }));
}

#[test]
fn ipv4_rejects_malformed_text() {
    assert_eq!(parse_ipv4("256.1.1.1"), None);
    assert_eq!(parse_ipv4("1.2.3"), None);
    assert_eq!(parse_ipv4("1.2.3.4.5"), None);
    assert_eq!(parse_ipv4("1.2.3."), None);
    assert_eq!(parse_ipv4(".1.2.3"), None);
    assert_eq!(parse_ipv4("1..2.3"), None);
    assert_eq!(parse_ipv4("auto"), None);
    assert_eq!(parse_ipv4(""), None);
    assert_eq!(parse_ipv4("1.2.3.4 "), None);
    assert_eq!(parse_ipv4("a.b.c.d"), None);
    assert_eq!(parse_ipv4("1234.1.1.1"), None);
}

#[test]
fn ipv4_round_trips_through_its_renderer() {
    let ip = Ipv4Addr { a: 10, b: 0, c: 7, d: 242 };
    let text = format_ipv4(&ip);
    assert_eq!(text, "10.0.7.242");
    assert_eq!(parse_ipv4(&text), Some(ip));
}

#[test]
fn derivation_keeps_the_first_three_octets() {
    assert_eq!(
        dead_man_switch::config::derive_from_text("10.1.2.3").unwrap(),
        "10.1.2.242"
    );
    assert_eq!(
        dead_man_switch::config::derive_from_text("192.168.7.242").unwrap(),
        "192.168.7.242"
    );
    // Leading-zero runs derive to the canonical spelling of the same octets.
    assert_eq!(
        dead_man_switch::config::derive_from_text("01.2.3.4").unwrap(),
        "1.2.3.242"
    );
    match dead_man_switch::config::derive_from_text("auto") {
        Err(DmsError::Config(_)) => {}
        other => panic!("expected a configuration error, got {:?}", other),
    }
    match dead_man_switch::config::derive_from_text("fe80::1") {
        Err(DmsError::Config(_)) => {}
        other => panic!("expected a configuration error, got {:?}", other),
    }
}

#[test]
fn zero_timeout_is_rejected_at_construction() {
    match make(0, 45370, "10.0.0.1") {
        Err(DmsError::Config(_)) => {}
        other => panic!("expected a configuration error, got {:?}", other),
    }
}

#[test]
fn privileged_port_is_rejected_at_construction() {
    match make(30, 80, "10.0.0.1") {
        Err(DmsError::Config(_)) => {}
        other => panic!("expected a configuration error, got {:?}", other),
    }
}

#[test]
fn well_formed_address_is_kept() {
    let c = make(30, 45370, "10.0.0.1").expect("valid configuration");
    assert_eq!(c.flic_ip, "10.0.0.1");
    assert_eq!(c.telegram_heartbeat_timeout, 30);
    assert_eq!(c.broadcast_port, 45370);
}

#[test]
fn malformed_address_is_derived_or_rejected() {
    // The derivation reads the machine's own address, so either outcome is
    // legitimate here; but a derived address always ends in the fixed last
    // octet, and a failure is always a configuration error.
    match make(30, 45370, "not-an-address") {
        Ok(c) => {
            assert!(c.flic_ip.ends_with(".242"), "derived address was {}", c.flic_ip);
            assert!(parse_ipv4(&c.flic_ip).is_some());
        }
        Err(DmsError::Config(_)) => {}
        Err(other) => panic!("unexpected error domain: {:?}", other),
    }
}

#[test]
fn stock_configuration_takes_the_derived_path() {
    match Config::default() {
        Ok(c) => {
            assert_eq!(c.telegram_bot_token, "TELEGRAM_BOT_TOKEN");
            assert!(c.token_is_placeholder());
            assert_eq!(c.telegram_heartbeat_timeout, 30);
            assert_eq!(c.broadcast_port, 45370);
            assert_eq!(c.broadcast_message, "trigger_dms");
            assert_eq!(c.telegram_command, "execute");
            assert_eq!(c.usb_vendor_id, 0x090c);
            assert_eq!(c.usb_product_id, 0x1000);
            assert_eq!(c.flic_port, 5551);
            assert!(c.flic_ip.ends_with(".242"));
        }
        Err(DmsError::Config(_)) => {}
        Err(other) => panic!("unexpected error domain: {:?}", other),
    }
}

#[test]
fn placeholder_credential_is_recognised() {
    let c = Config::new(
        "TELEGRAM_BOT_TOKEN".to_string(),
        30,
        45370,
        "trigger_dms".to_string(),
        "execute".to_string(),
        1,
        2,
        "10.0.0.1".to_string(),
        5551,
    )
    .expect("valid configuration");
    assert!(c.token_is_placeholder());
    let c = make(30, 45370, "10.0.0.1").expect("valid configuration");
    assert!(!c.token_is_placeholder());
}

#[test]
fn mode_list_resolves_names_and_all() {
    assert_eq!(
        parse_modes("all"),
        vec![Mode::Timer, Mode::Net, Mode::Bot, Mode::Usb, Mode::Flic]
    );
    assert_eq!(parse_modes("net, usb"), vec![Mode::Net, Mode::Usb]);
    assert_eq!(parse_modes("usb,net"), vec![Mode::Net, Mode::Usb]);
    assert_eq!(parse_modes("net,net"), vec![Mode::Net]);
    assert_eq!(parse_modes("  timer ,flic"), vec![Mode::Timer, Mode::Flic]);
    assert_eq!(parse_modes("nothing, of, the, kind"), vec![]);
    assert_eq!(parse_modes(""), vec![]);
    assert_eq!(parse_modes("network"), vec![]);
}

#[test]
fn active_set_is_requested_minus_failed_probes() {
    let requested = parse_modes("timer, net, bot");
    let failed = vec![Mode::Timer];
    let active = ActiveModeSet::build(&requested, &failed).expect("one monitor survives");
    assert_eq!(active.len(), 2);
    assert!(!active.is_active(Mode::Timer));
    assert!(active.is_active(Mode::Net));
    assert!(active.is_active(Mode::Bot));
}

#[test]
fn unprobed_monitors_survive_a_listed_failure() {
    // Only the channel-authenticated monitors are probed; a failure listed
    // for an unprobed monitor is meaningless and removes nothing.
    let requested = parse_modes("net, usb");
    let failed = vec![Mode::Net, Mode::Usb];
    let active = ActiveModeSet::build(&requested, &failed).expect("both survive");
    assert_eq!(active.len(), 2);
    assert!(active.is_active(Mode::Net));
    assert!(active.is_active(Mode::Usb));
}

#[test]
fn empty_active_set_is_a_fatal_configuration_error() {
    let requested = parse_modes("timer, bot");
    let failed = vec![Mode::Timer, Mode::Bot];
    match ActiveModeSet::build(&requested, &failed) {
        Err(DmsError::Config(_)) => {}
        other => panic!("expected a configuration error, got {:?}", other.map(|a| a.len())),
    }
    let none_requested = parse_modes("");
    match ActiveModeSet::build(&none_requested, &vec![]) {
        Err(DmsError::Config(_)) => {}
        other => panic!("expected a configuration error, got {:?}", other.map(|a| a.len())),
    }
}

#[test]
fn address_texts_are_rendered_exactly() {
    assert_eq!(dead_man_switch::network::bind_addr_text(45370), "0.0.0.0:45370");
    assert_eq!(
        dead_man_switch::network::broadcast_addr_text(45370),
        "255.255.255.255:45370"
    );
    let c = make(30, 45370, "10.0.0.1").expect("valid configuration");
    assert_eq!(c.control_endpoint_text(), "10.0.0.1:5551");
}
