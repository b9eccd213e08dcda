use logger_client::console::{ConsoleAction, ConsoleEvent, ConsoleFollow, RESCAN_MS};
use logger_client::console::console_line;
use logger_client::console::{find_port, strip_ansi, PortInfo, SharedLines, MAX_LINES};

#[test]
fn strips_csi_sequences() {
    assert_eq!(strip_ansi("\u{1b}[0;32mI (123) boot: ok\u{1b}[0m"), "I (123) boot: ok");
    assert_eq!(strip_ansi("plain"), "plain");
    assert_eq!(strip_ansi(""), "");
}

#[test]
fn keeps_lone_escape_and_drops_unterminated_sequence() {
    // ESC not followed by '[' stays.
    assert_eq!(strip_ansi("a\u{1b}b"), "a\u{1b}b");
    // An unterminated sequence swallows the rest of the line.
    assert_eq!(strip_ansi("abc\u{1b}[12;34"), "abc");
    // The final byte can be any of '@'..='~'.
    assert_eq!(strip_ansi("x\u{1b}[2Ky\u{1b}[@z\u{1b}[~w"), "xyzw");
    // Non-ASCII text passes through.
    assert_eq!(strip_ansi("\u{1b}[1m\u{e9}t\u{e9}"), "\u{e9}t\u{e9}");
}

#[test]
fn shared_lines_keep_the_most_recent() {
    let mut lines = SharedLines::new();
    assert_eq!(lines.len(), 0);
    for i in 0..MAX_LINES + 3 {
        lines.push(format!("line {i}"));
    }
    assert_eq!(lines.len(), MAX_LINES);
    let snap = lines.snapshot();
    assert_eq!(snap.len(), MAX_LINES);
    assert_eq!(snap.front().unwrap(), "line 3");
    assert_eq!(snap.back().unwrap(), &format!("line {}", MAX_LINES + 2));
}

#[test]
fn shared_lines_below_the_cap_keep_everything() {
    let mut lines = SharedLines::new();
    lines.push("a".to_string());
    lines.push("b".to_string());
    let snap: Vec<String> = lines.snapshot().into_iter().collect();
    assert_eq!(snap, vec!["a".to_string(), "b".to_string()]);
}

#[test]
fn console_port_is_the_jtag_serial_one() {
    let ports = vec![
        PortInfo { name: "/dev/ttyS0".into(), usb_ids: None },
        PortInfo { name: "/dev/ttyUSB0".into(), usb_ids: Some((0x10c4, 0x1001)) },
        PortInfo { name: "/dev/ttyACM0".into(), usb_ids: Some((0x303a, 0x4001)) },
        PortInfo { name: "/dev/ttyACM1".into(), usb_ids: Some((0x303a, 0x1001)) },
        PortInfo { name: "/dev/ttyACM2".into(), usb_ids: Some((0x303a, 0x1001)) },
    ];
    assert_eq!(find_port(&ports), Some("/dev/ttyACM1".to_string()));
    assert_eq!(find_port(&ports[..3].to_vec()), None);
}

#[test]
fn console_lines_are_trimmed_and_cleaned() {
    assert_eq!(console_line("\u{1b}[0;32mI (12) main: up\u{1b}[0m\r\n").as_deref(), Some("I (12) main: up"));
    assert_eq!(console_line("  keep leading\n").as_deref(), Some("  keep leading"));
    assert_eq!(console_line("\u{1b}[0m\r\n"), None);
    assert_eq!(console_line(" \t\n"), None);
}

#[test]
fn console_following_reports_only_changes() {
    let mut f = ConsoleFollow::new();
    assert!(matches!(f.step(ConsoleEvent::Scanned(None)), ConsoleAction::Scan { after_ms } if after_ms == RESCAN_MS));
    assert!(matches!(f.step(ConsoleEvent::Scanned(Some("/dev/ttyACM1".to_string()))), ConsoleAction::Open(ref p) if p == "/dev/ttyACM1"));
    assert!(matches!(f.step(ConsoleEvent::Opened { port: "/dev/ttyACM1".to_string(), ok: false }), ConsoleAction::Scan { after_ms } if after_ms == RESCAN_MS));
    assert!(matches!(f.step(ConsoleEvent::Opened { port: "/dev/ttyACM1".to_string(), ok: true }), ConsoleAction::Connected(ref p) if p == "/dev/ttyACM1"));
    assert!(matches!(f.step(ConsoleEvent::Polled { reader_done: false, len: 0 }), ConsoleAction::Wait));
    assert!(matches!(f.step(ConsoleEvent::Polled { reader_done: false, len: 3 }), ConsoleAction::Report));
    assert!(matches!(f.step(ConsoleEvent::Polled { reader_done: false, len: 3 }), ConsoleAction::Wait));
    assert!(matches!(f.step(ConsoleEvent::Polled { reader_done: true, len: 3 }), ConsoleAction::Disconnected));
    assert!(matches!(f.step(ConsoleEvent::Opened { port: "x".to_string(), ok: true }), ConsoleAction::Connected(_)));
    assert_eq!(f.last_seen_len, 0);
}

#[test]
fn pushed_lines_keep_the_last_ones() {
    let mut lines = SharedLines::new();
    assert_eq!(lines.len(), 0);
    for i in 0..7 {
        lines.push(format!("{i}"));
    }
    assert_eq!(lines.len(), 7);
    let snap: Vec<String> = lines.snapshot().into();
    assert_eq!(snap, (0..7).map(|i| format!("{i}")).collect::<Vec<_>>());
    assert_eq!(lines.snapshot(), lines.snapshot());
}
