use logger_client::text::{hex_upper_text, trim_end_text};
use logger_client::device::{
    committed_count, control_route, decode_log_chunk, envelope_error, find_port, hex_decode, hex_encode,
    log_chunk_command, ota_upload_command, usb_speed_path, Command, ControlRoute, DeviceStatusFlags, Download,
    HexError, CHUNK_RETRIES, UPLOAD_CHUNK,
};
use logger_client::device::{
    decode_line, decode_reply, ota_flash_command, set_config_command, upload_chunk_count, usb_speed_text,
    LineReply, Reply, ReplyError, ReplyFields,
};
use logger_client::console::PortInfo;

#[test]
fn hex_round_trip() {
    let bytes: Vec<u8> = (0..=255).collect();
    let text = hex_encode(&bytes);
    assert_eq!(&text[..8], "00010203");
    assert_eq!(&text[text.len() - 4..], "feff");
    assert_eq!(hex_decode(&text), Ok(bytes));
    assert_eq!(hex_encode(&[]), "");
}

#[test]
fn hex_decode_accepts_either_case_and_a_plus_sign() {
    assert_eq!(hex_decode("DeadBEEF"), Ok(vec![0xde, 0xad, 0xbe, 0xef]));
    assert_eq!(hex_decode("+f0a"), Ok(vec![0x0f, 0x0a]));
    assert_eq!(hex_decode(""), Ok(vec![]));
}

#[test]
fn hex_decode_errors() {
    assert_eq!(hex_decode("abc"), Err(HexError::OddLength));
    assert_eq!(hex_decode("zz"), Err(HexError::BadDigit));
    assert_eq!(hex_decode("-1"), Err(HexError::BadDigit));
    assert_eq!(hex_decode("1+"), Err(HexError::BadDigit));
    assert_eq!(hex_decode("00 1"), Err(HexError::BadDigit));
    assert_eq!(hex_decode("00 12"), Err(HexError::OddLength));
    // A two-byte character is one bad pair.
    assert_eq!(hex_decode("\u{e9}00"), Err(HexError::BadDigit));
}

#[test]
fn download_retries_each_chunk_three_times() {
    let mut d = Download::new();
    assert_eq!(d.offset(), 0);
    for _ in 0..CHUNK_RETRIES {
        assert!(d.on_failure());
    }
    assert!(!d.on_failure());
    let mut d = Download::new();
    assert!(d.on_failure());
    assert!(!d.on_chunk(vec![1, 2, 3], false));
    assert_eq!(d.offset(), 3);
    // The failure count starts over after a chunk.
    for _ in 0..CHUNK_RETRIES {
        assert!(d.on_failure());
    }
    assert!(!d.on_failure());
    assert_eq!(d.offset(), 3);
    assert!(d.on_chunk(vec![4], true));
    assert_eq!(d.into_bytes(), vec![1, 2, 3, 4]);
}

#[test]
fn log_chunk_replies() {
    assert_eq!(decode_log_chunk(Some("0a0b"), Some(false)), Ok((vec![10, 11], false)));
    assert_eq!(decode_log_chunk(None, None), Ok((vec![], true)));
    assert_eq!(decode_log_chunk(Some("0"), Some(true)), Err(HexError::OddLength));
    match log_chunk_command("0001.bin", 4096) {
        Command::LogChunk { name, offset } => {
            assert_eq!(name, "0001.bin");
            assert_eq!(offset, 4096);
        }
        other => panic!("unexpected {other:?}"),
    }
}

#[test]
fn reply_fields() {
    assert_eq!(committed_count(Some(7)), 7);
    assert_eq!(committed_count(Some(0x1_0000_0005)), 5);
    assert_eq!(committed_count(None), 0);
    assert_eq!(envelope_error(Some(true), Some("ignored")), None);
    assert_eq!(envelope_error(Some(false), Some("busy")), Some("device error: busy".to_string()));
    assert_eq!(envelope_error(None, None), Some("device error: unknown error".to_string()));
}

#[test]
fn upload_chunks_cover_the_image() {
    let image: Vec<u8> = (0..5000u32).map(|i| (i % 251) as u8).collect();
    let mut seen = Vec::new();
    let mut i = 0;
    while i * UPLOAD_CHUNK < image.len() {
        match ota_upload_command(&image, i) {
            Command::OtaUpload { offset, data } => {
                assert_eq!(offset as usize, i * UPLOAD_CHUNK);
                seen.extend(hex_decode(&data).unwrap());
            }
            other => panic!("unexpected {other:?}"),
        }
        i += 1;
    }
    assert_eq!(i, 3);
    assert_eq!(seen, image);
}

#[test]
fn control_commands_are_routed() {
    assert_eq!(control_route(&Command::Ping), ControlRoute::Ping);
    assert_eq!(control_route(&Command::SetLogging { active: true }), ControlRoute::Forward);
    assert_eq!(control_route(&Command::NextLog), ControlRoute::Forward);
    assert_eq!(control_route(&Command::Reboot), ControlRoute::Forward);
    assert_eq!(control_route(&Command::Uptime), ControlRoute::Unhandled);
}

#[test]
fn logger_port_skips_rom_download_mode() {
    let ports = vec![
        PortInfo { name: "/dev/ttyACM0".into(), usb_ids: Some((0x303a, 0x1001)) },
        PortInfo { name: "/dev/ttyACM1".into(), usb_ids: Some((0x303a, 0x4002)) },
    ];
    assert_eq!(find_port(&ports), Some("/dev/ttyACM1".to_string()));
    assert_eq!(find_port(&ports[..1].to_vec()), None);
}

#[test]
fn usb_speed_lives_in_sysfs() {
    assert_eq!(usb_speed_path("/dev/ttyACM0"), "/sys/class/tty/ttyACM0/device/../speed");
    assert_eq!(usb_speed_path("ttyUSB1"), "/sys/class/tty/ttyUSB1/device/../speed");
    assert_eq!(usb_speed_path("/dev/"), "/sys/class/tty//device/../speed");
}

#[test]
fn status_flags_default_down() {
    let f = DeviceStatusFlags::default();
    assert!(!(f.adc || f.can || f.gnss || f.imu || f.logging || f.sd || f.usb_hs));
}

#[test]
fn upper_hex_and_trim_end() {
    assert_eq!(hex_upper_text(0), "0");
    assert_eq!(hex_upper_text(0x7e8), "7E8");
    assert_eq!(hex_upper_text(u64::MAX), "FFFFFFFFFFFFFFFF");
    assert_eq!(trim_end_text(" a b \r\n\u{3000}"), " a b");
    assert_eq!(trim_end_text(""), "");
}

#[test]
fn decoded_hex_reencodes_in_lower_case() {
    let v = hex_decode("DEadBeEf01").unwrap();
    assert_eq!(hex_encode(&v), "deadbeef01");
    assert_eq!(hex_encode(&hex_decode("").unwrap()), "");
}

fn decoded(cmd: &Command, line: &str) -> Result<Reply, ReplyError> {
    match decode_line(cmd, line) {
        LineReply::Decoded(r, _) => r,
        LineReply::Skipped => panic!("line skipped: {line}"),
        LineReply::SplitHex(t) => panic!("hex splits a char: {t}"),
    }
}

fn no_fields() -> ReplyFields {
    ReplyFields {
        ok: Some(true),
        error: None,
        version: None,
        config_loaded: None,
        uptime_seconds: None,
        data_hex: None,
        eof: None,
        committed: None,
        active: None,
        current: None,
    }
}

#[test]
fn debug_lines_are_skipped() {
    assert!(matches!(decode_line(&Command::Ping, "I (123) boot: ready"), LineReply::Skipped));
    assert!(matches!(decode_line(&Command::Ping, ""), LineReply::Skipped));
    assert!(matches!(decode_line(&Command::Ping, r#"{"ok":true"#), LineReply::Skipped));
    assert!(matches!(decode_line(&Command::Ping, r#"{"ok":true}"#), LineReply::Decoded(Ok(Reply::Pong), _)));
}

#[test]
fn a_failed_envelope_is_a_device_error() {
    match decoded(&Command::Version, r#"{"ok":false,"error":"busy"}"#) {
        Err(ReplyError::Device(m)) => assert_eq!(m, "device error: busy"),
        _ => panic!("device error expected"),
    }
    match decoded(&Command::Ping, r#"{"error":"ignored","data":{"version":"1"}}"#) {
        Err(ReplyError::Device(m)) => assert_eq!(m, "device error: ignored"),
        _ => panic!("device error expected"),
    }
    match decoded(&Command::Ping, r#"{"ok":"yes"}"#) {
        Err(ReplyError::Device(m)) => assert_eq!(m, "device error: unknown error"),
        _ => panic!("device error expected"),
    }
}

#[test]
fn replies_decode_by_command() {
    match decoded(&Command::Version, r#"{"ok":true,"data":{"version":"1.4.2"}}"#) {
        Ok(Reply::Version(v)) => assert_eq!(v, "1.4.2"),
        _ => panic!("version expected"),
    }
    assert!(matches!(decoded(&Command::Version, r#"{"ok":true,"data":{}}"#), Err(ReplyError::MissingVersion)));
    assert!(matches!(decoded(&Command::Version, r#"{"ok":true,"data":{"version":3}}"#), Err(ReplyError::MissingVersion)));
    assert!(matches!(
        decoded(&Command::Status, r#"{"ok":true,"data":{"config_loaded":true}}"#),
        Ok(Reply::Status { config_loaded: true })
    ));
    assert!(matches!(decoded(&Command::Status, r#"{"ok":true}"#), Ok(Reply::Status { config_loaded: false })));
    assert!(matches!(
        decoded(&Command::Uptime, r#"{"ok":true,"data":{"uptime_seconds":3600}}"#),
        Ok(Reply::Uptime(3600))
    ));
    assert!(matches!(decoded(&Command::Uptime, r#"{"ok":true,"data":{"uptime_seconds":-1}}"#), Err(ReplyError::MissingUptime)));
    match decoded(&Command::LogStatus, r#"{"ok":true,"data":{"active":true,"current":"0007.bin"}}"#) {
        Ok(Reply::LogStatus { active, current }) => assert!(active && current == "0007.bin"),
        _ => panic!("log status expected"),
    }
    match decoded(&Command::LogStatus, r#"{"ok":true,"data":{}}"#) {
        Ok(Reply::LogStatus { active, current }) => assert!(!active && current.is_empty()),
        _ => panic!("log status expected"),
    }
    assert!(matches!(
        decoded(&Command::OtaUpload { offset: 0, data: String::new() }, r#"{"ok":true,"data":{"committed":4294967297}}"#),
        Ok(Reply::OtaUpload { committed: 1 })
    ));
    assert!(matches!(
        decoded(&Command::OtaUpload { offset: 0, data: String::new() }, r#"{"ok":true,"data":{}}"#),
        Ok(Reply::OtaUpload { committed: 0 })
    ));
    assert!(matches!(decoded(&Command::ListLogs, r#"{"ok":true,"data":[]}"#), Ok(Reply::Logs)));
    assert!(matches!(decoded(&Command::Reboot, r#"{"ok":true}"#), Ok(Reply::RebootOk)));
}

#[test]
fn the_data_value_comes_back_whole() {
    match decode_line(&Command::GetConfig, r#"{"ok":true,"data":{"can_devices":[{"id":7}]}}"#) {
        LineReply::Decoded(Ok(Reply::Config), data) => assert_eq!(data["can_devices"][0]["id"].as_u64(), Some(7)),
        _ => panic!("config expected"),
    }
}

#[test]
fn log_chunk_replies_decode_their_hex() {
    let cmd = log_chunk_command("0001.bin", 0);
    match decoded(&cmd, r#"{"ok":true,"data":{"data":"00ff10","eof":false}}"#) {
        Ok(Reply::LogChunk { data, eof }) => assert_eq!((data, eof), (vec![0, 255, 16], false)),
        _ => panic!("chunk expected"),
    }
    match decoded(&cmd, r#"{"ok":true,"data":{}}"#) {
        Ok(Reply::LogChunk { data, eof }) => assert!(data.is_empty() && eof),
        _ => panic!("chunk expected"),
    }
    assert!(matches!(decoded(&cmd, r#"{"ok":true,"data":{"data":"abc"}}"#), Err(ReplyError::Hex(HexError::OddLength))));
    assert!(matches!(decoded(&cmd, r#"{"ok":true,"data":{"data":"zz"}}"#), Err(ReplyError::Hex(HexError::BadDigit))));
    match decode_line(&cmd, r#"{"ok":true,"data":{"data":"aéb"}}"#) {
        LineReply::SplitHex(t) => assert_eq!(t, "aéb"),
        _ => panic!("split hex expected"),
    }
    assert!(matches!(decode_line(&Command::Ping, r#"{"ok":true,"data":{"data":"aéb"}}"#), LineReply::Decoded(Ok(Reply::Pong), _)));
}

#[test]
fn decode_reply_reads_the_fields() {
    let mut f = no_fields();
    f.version = Some("2.0".to_string());
    assert!(matches!(decode_reply(&Command::Version, &f), Ok(Reply::Version(v)) if v == "2.0"));
    f.ok = None;
    f.error = Some("no sd card".to_string());
    assert!(matches!(decode_reply(&Command::Version, &f), Err(ReplyError::Device(m)) if m == "device error: no sd card"));
    let mut f = no_fields();
    f.data_hex = Some("0A0b".to_string());
    f.eof = Some(false);
    let cmd = log_chunk_command("x", 0);
    assert!(matches!(decode_reply(&cmd, &f), Ok(Reply::LogChunk { data, eof: false }) if data == vec![10, 11]));
    assert!(matches!(decode_reply(&Command::Frames, &no_fields()), Ok(Reply::Frames)));
}

#[test]
fn set_config_requests_carry_the_parsed_file() {
    match set_config_command(r#"{"can_devices":[],"adc_channels":[{"channel":3}]}"#) {
        Ok(Command::SetConfig { args }) => {
            assert_eq!(args["adc_channels"][0]["channel"].as_u64(), Some(3));
            assert!(args["can_devices"].as_array().is_some_and(|a| a.is_empty()));
        },
        _ => panic!("set_config expected"),
    }
    assert!(set_config_command("{not json").is_err());
    assert!(set_config_command("").is_err());
}

#[test]
fn firmware_requests_are_planned_by_chunk() {
    assert_eq!(upload_chunk_count(0), 0);
    assert_eq!(upload_chunk_count(1), 1);
    assert_eq!(upload_chunk_count(UPLOAD_CHUNK), 1);
    assert_eq!(upload_chunk_count(UPLOAD_CHUNK + 1), 2);
    assert_eq!(upload_chunk_count(5000), 3);
    assert!(matches!(
        ota_flash_command(3, 5000, 0xdead_beef),
        Command::OtaFlash { node: 3, size: 5000, crc: 0xdead_beef }
    ));
}

#[test]
fn usb_speed_text_is_trimmed() {
    assert_eq!(usb_speed_text(" 480\n"), "480");
    assert_eq!(usb_speed_text("12"), "12");
    assert_eq!(usb_speed_text("\n"), "");
}
