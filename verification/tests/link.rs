use logger_client::device::DeviceStatusFlags;
use logger_client::link::{LinkAction, LinkEvent, Poller, HEARTBEAT_MS, PROBE_PAUSE_MS, SCAN_PAUSE_MS, TICK_MS};

fn connected() -> Poller {
    let mut p = Poller::new();
    let (a, publish) = p.step(LinkEvent::Versioned { port: "/dev/ttyACM0".to_string(), version: Some("1.2.3".to_string()) });
    assert!(matches!(a, LinkAction::Serve));
    assert!(publish);
    p
}

#[test]
fn scanning_without_a_port_waits_and_publishes_nothing() {
    let mut p = Poller::new();
    let (a, publish) = p.step(LinkEvent::Scanned(None));
    assert!(matches!(a, LinkAction::Scan { after_ms } if after_ms == SCAN_PAUSE_MS));
    assert!(!publish);
    assert!(p.state().port.is_none());
}

#[test]
fn a_found_port_is_probed_then_asked_for_its_version() {
    let mut p = Poller::new();
    let (a, publish) = p.step(LinkEvent::Scanned(Some("/dev/ttyACM0".to_string())));
    assert!(matches!(a, LinkAction::Probe(ref port) if port == "/dev/ttyACM0"));
    assert!(!publish);
    let (a, _) = p.step(LinkEvent::Probed { port: "/dev/ttyACM0".to_string(), answered: false });
    assert!(matches!(a, LinkAction::Scan { after_ms } if after_ms == PROBE_PAUSE_MS));
    let (a, publish) = p.step(LinkEvent::Probed { port: "/dev/ttyACM0".to_string(), answered: true });
    assert!(matches!(a, LinkAction::AskVersion(ref port) if port == "/dev/ttyACM0"));
    assert!(!publish);
}

#[test]
fn connecting_sets_port_and_version_only() {
    let p = connected();
    let s = p.state();
    assert_eq!(s.port.as_deref(), Some("/dev/ttyACM0"));
    assert_eq!(s.firmware_version.as_deref(), Some("1.2.3"));
    assert!(s.uptime.is_none() && s.last_ping.is_none() && s.logging_active.is_none());
    assert!(s.current_log.is_none() && s.status.is_none());
}

#[test]
fn heartbeat_is_due_after_a_second() {
    let mut p = connected();
    let (a, publish) = p.step(LinkEvent::Tick { since_heartbeat_ms: HEARTBEAT_MS - 1 });
    assert!(matches!(a, LinkAction::Wait { ms } if ms == TICK_MS));
    assert!(!publish);
    let (a, _) = p.step(LinkEvent::Tick { since_heartbeat_ms: HEARTBEAT_MS });
    assert!(matches!(a, LinkAction::Beat));
}

#[test]
fn heartbeat_replaces_telemetry_and_keeps_the_connection() {
    let mut p = connected();
    let flags = DeviceStatusFlags { adc: true, can: true, gnss: false, imu: true, logging: true, sd: true, usb_hs: false };
    let (a, publish) = p.step(LinkEvent::Heartbeat {
        uptime: 42,
        status: Some(flags),
        log_status: Some((true, "0007.bin".to_string())),
    });
    assert!(matches!(a, LinkAction::Wait { ms } if ms == TICK_MS));
    assert!(publish);
    assert_eq!(p.state().uptime, Some(42));
    assert_eq!(p.state().logging_active, Some(true));
    assert_eq!(p.state().current_log.as_deref(), Some("0007.bin"));
    assert!(p.state().status.map(|f| f.adc && !f.gnss).unwrap_or(false));
    assert_eq!(p.state().port.as_deref(), Some("/dev/ttyACM0"));

    // A failed log-status request clears the logging state.
    p.step(LinkEvent::Heartbeat { uptime: 43, status: None, log_status: None });
    assert_eq!(p.state().uptime, Some(43));
    assert!(p.state().logging_active.is_none() && p.state().current_log.is_none() && p.state().status.is_none());
}

#[test]
fn a_lost_link_is_emptied_and_scanned_again_at_once() {
    let mut p = connected();
    p.record_ping(true);
    assert_eq!(p.state().last_ping, Some(true));
    let (a, publish) = p.step(LinkEvent::Lost);
    assert!(matches!(a, LinkAction::Scan { after_ms: 0 }));
    assert!(publish);
    assert!(p.state().port.is_none() && p.state().firmware_version.is_none() && p.state().last_ping.is_none());
}

#[test]
fn losing_the_port_while_connected_publishes_an_empty_state_once() {
    let mut p = connected();
    let (_, publish) = p.step(LinkEvent::Scanned(None));
    assert!(publish);
    assert!(p.state().port.is_none() && p.state().firmware_version.is_none());
    let (_, publish) = p.step(LinkEvent::Scanned(None));
    assert!(!publish);
}
