use logger_client::ld::{LdChannel, LdDocument, CHANNEL_HEADER_SIZE, EVENT_SIZE, LOG_HEADER_SIZE};
use logger_client::log_parse::ParsedLog;
use logger_client::motec::{build_ld, build_ld_at, channel_columns, infer_freq_hz, is_excluded, lookup, Conversion};

fn sample_log() -> ParsedLog {
    ParsedLog {
        columns: vec![
            "timestamp".into(),
            "Steering".into(),
            "amp_Batt".into(),
            "some_unmapped_channel".into(),
        ],
        rows: vec![
            vec!["0".into(), "1430".into(), "12.5".into(), "3".into()],
            vec!["50".into(), "1440".into(), "12.4".into(), "4".into()],
            vec!["100".into(), "1450".into(), "12.3".into(), "5".into()],
        ],
    }
}

fn apply(conv: Conversion, v: f64) -> f64 {
    match conv {
        Conversion::Identity => v,
        Conversion::Steering => 0.084769 * (v - 1430.0),
        Conversion::DamperFrontLeft => -0.018586 * (v - 1311.0),
        Conversion::DamperFrontRight => -0.018444 * (v - 1324.0),
        Conversion::DamperRearRight => -0.018498 * (v - 1370.0),
        Conversion::DamperRearLeft => -0.018600 * (v - 1403.0),
        Conversion::AccelMilliG => (v * 0.122) / 1000.0,
        Conversion::GyroMilliDps => (v * 17.50) / 1000.0,
        Conversion::StrainFrontLeft => -11052026.1 * v + 2606.22253,
        Conversion::StrainRearLeft => -1401922.44 * v + 92026.0137,
        Conversion::MinusFifty => v - 50.0,
        Conversion::Tenth => 0.1 * v,
        Conversion::Thousandth => 0.001 * v,
        Conversion::WrappedMilli => (if v >= 32768.0 { v - 65536.0 } else { v }) * 0.001,
    }
}

/// Samples of each kept column as `f32` bit patterns, calibrated.
fn samples_of(parsed: &ParsedLog) -> Vec<Vec<u32>> {
    channel_columns(parsed)
        .iter()
        .map(|&idx| {
            let meta = lookup(&parsed.columns[idx]);
            parsed
                .rows
                .iter()
                .map(|row| {
                    let raw: f64 = row.get(idx).and_then(|s| s.parse().ok()).unwrap_or(0.0);
                    (apply(meta.convert, raw) as f32).to_bits()
                })
                .collect()
        })
        .collect()
}

/// The sample rate as the logger client computes it in floating point.
fn f64_rate(first: &String, last: &String, rows: usize) -> Option<u16> {
    let first: f64 = first.parse().ok()?;
    let last: f64 = last.parse().ok()?;
    if rows < 2 || last <= first {
        return None;
    }
    let avg_dt_ms = (last - first) / (rows - 1) as f64;
    if avg_dt_ms <= 0.0 {
        return None;
    }
    Some((1000.0 / avg_dt_ms).round().max(1.0) as u16)
}

fn u32_at(bytes: &[u8], at: usize) -> u32 {
    u32::from_le_bytes(bytes[at..at + 4].try_into().unwrap())
}

fn u16_at(bytes: &[u8], at: usize) -> u16 {
    u16::from_le_bytes(bytes[at..at + 2].try_into().unwrap())
}

fn built() -> Vec<u8> {
    let log = sample_log();
    build_ld(&log, &samples_of(&log), infer_freq_hz(&log, f64_rate))
}

#[test]
fn infers_20hz_from_50ms_steps() {
    assert_eq!(infer_freq_hz(&sample_log(), f64_rate), Some(20));
}

#[test]
fn excludes_timestamp_channel_and_keeps_others() {
    let bytes = built();
    let numchannels = u32::from_le_bytes(bytes[86..90].try_into().unwrap());
    assert_eq!(numchannels, 3);
}

#[test]
fn header_pointers_and_channel_layout_are_self_consistent() {
    let bytes = built();

    let firstchannelpos = u32_at(&bytes, 8) as usize;
    let firstchanneldatapos = u32_at(&bytes, 12) as usize;
    assert_eq!(firstchannelpos, LOG_HEADER_SIZE + EVENT_SIZE);
    assert_eq!(firstchanneldatapos, firstchannelpos + 3 * CHANNEL_HEADER_SIZE);

    let expected = ["Steering", "amp_Batt", "some_unmapped_channel"];
    let mut pos = firstchannelpos;
    let mut expected_datapos = firstchanneldatapos;
    for (i, name) in expected.iter().enumerate() {
        let prevpos = u32_at(&bytes, pos);
        let nextpos = u32_at(&bytes, pos + 4);
        let datapos = u32_at(&bytes, pos + 8);
        let numsamples = u32_at(&bytes, pos + 12);
        let datatype = u16_at(&bytes, pos + 18);
        let freq = u16_at(&bytes, pos + 22);
        let stored_name = std::str::from_utf8(&bytes[pos + 32..pos + 32 + name.len()]).unwrap();

        assert_eq!(datapos as usize, expected_datapos);
        assert_eq!(numsamples, 3);
        assert_eq!(datatype, 0x0007);
        assert_eq!(freq, 20);
        assert_eq!(stored_name, *name);
        assert_eq!(prevpos as usize, if i == 0 { 0 } else { pos - CHANNEL_HEADER_SIZE });
        assert_eq!(
            nextpos as usize,
            if i + 1 < expected.len() { pos + CHANNEL_HEADER_SIZE } else { 0 }
        );

        expected_datapos += numsamples as usize * 4;
        pos = if nextpos == 0 { pos } else { nextpos as usize };
    }

    assert_eq!(bytes.len(), expected_datapos);
}

#[test]
fn steering_channel_applies_calibration() {
    let bytes = built();
    let firstchannelpos = LOG_HEADER_SIZE + EVENT_SIZE;
    let firstchanneldatapos = firstchannelpos + 3 * CHANNEL_HEADER_SIZE;
    let sample = |i: usize| {
        let at = firstchanneldatapos + i * 4;
        f32::from_le_bytes(bytes[at..at + 4].try_into().unwrap())
    };
    assert!((sample(0) - 0.0).abs() < 1e-4);
    assert!((sample(1) - 0.84769).abs() < 1e-3);
    assert!((sample(2) - 1.69538).abs() < 1e-3);
}

#[test]
fn already_scaled_channel_gets_identity_conversion() {
    let bytes = built();
    let firstchannelpos = LOG_HEADER_SIZE + EVENT_SIZE;
    let datapos = u32_at(&bytes, firstchannelpos + CHANNEL_HEADER_SIZE + 8) as usize;
    let v = f32::from_le_bytes(bytes[datapos..datapos + 4].try_into().unwrap());
    assert!((v - 12.5).abs() < 1e-4);
}

#[test]
fn unmapped_channel_falls_back_to_its_own_name() {
    let meta = lookup("some_unmapped_channel");
    assert_eq!(meta.display, "some_unmapped_channel");
    assert_eq!(meta.short, "some_unm");
    assert_eq!(meta.units, "");
}

#[test]
fn table_channels_carry_their_metadata() {
    let m = lookup("Steering");
    assert_eq!((m.display.as_str(), m.short.as_str(), m.units.as_str()), ("Steering", "Steering", "deg"));
    assert_eq!(m.convert, Conversion::Steering);
    let m = lookup("FLW_OBJ");
    assert_eq!((m.display.as_str(), m.short.as_str(), m.units.as_str()), ("FL Wheel Object", "FLW_Obj", ""));
    let m = lookup("amp_Batt");
    assert_eq!(m.convert, Conversion::Identity);
    assert_eq!(lookup("a_Lat_ecu").convert, Conversion::WrappedMilli);
    assert_eq!(lookup("t_oil").convert, Conversion::MinusFifty);
    // Lookup is case-sensitive: another case falls back.
    let m = lookup("steering");
    assert_eq!((m.display.as_str(), m.short.as_str(), m.units.as_str()), ("steering", "steering", ""));
}

#[test]
fn short_fallback_names_are_cut_to_eight_bytes() {
    assert_eq!(lookup("abc").short, "abc");
    assert_eq!(lookup("abcdefghij").short, "abcdefgh");
    // "é" takes two bytes: seven ASCII bytes then a two-byte char would cut it.
    assert_eq!(lookup("abcdef\u{e9}x").short, "abcdef\u{e9}");
}

#[test]
fn excluded_channels_ignore_case() {
    assert!(is_excluded("reset_reason"));
    assert!(is_excluded("Reset_Reason"));
    assert!(!is_excluded("reset"));
    let log = ParsedLog {
        columns: vec!["RESET_reason".into(), "TimeStamp".into(), "v_batt".into()],
        rows: vec![],
    };
    assert_eq!(channel_columns(&log), vec![2]);
}

fn log_with_times(times: &[&str]) -> ParsedLog {
    ParsedLog {
        columns: vec!["x".into(), "Timestamp".into()],
        rows: times.iter().map(|t| vec!["0".to_string(), t.to_string()]).collect(),
    }
}

#[test]
fn sample_rate_edge_cases() {
    // 1000 ms for 3 intervals: 3 Hz.
    assert_eq!(infer_freq_hz(&log_with_times(&["0", "500", "1000", "1000"]), f64_rate), Some(3));
    // 0.5 is rounded away from zero: 2 intervals over 4000 ms.
    assert_eq!(infer_freq_hz(&log_with_times(&["0", "1", "4000"]), f64_rate), Some(1));
    // 1 interval over 400 ms is 2.5 Hz: rounds to 3.
    assert_eq!(infer_freq_hz(&log_with_times(&["0", "400"]), f64_rate), Some(3));
    // Fractions and signs.
    assert_eq!(infer_freq_hz(&log_with_times(&["-0.5", "+49.5"]), f64_rate), Some(20));
    assert_eq!(infer_freq_hz(&log_with_times(&[".25", "50.25"]), f64_rate), Some(20));
    // Time standing still or running back.
    assert_eq!(infer_freq_hz(&log_with_times(&["10", "10"]), f64_rate), None);
    assert_eq!(infer_freq_hz(&log_with_times(&["10", "5"]), f64_rate), None);
    // A single row.
    assert_eq!(infer_freq_hz(&log_with_times(&["10"]), f64_rate), None);
    // Very fast and very slow rates are held to 1..=65535.
    assert_eq!(infer_freq_hz(&log_with_times(&["0", "0.001"]), f64_rate), Some(65535));
    assert_eq!(infer_freq_hz(&log_with_times(&["0", "99999999"]), f64_rate), Some(1));
    // Not numbers.
    assert_eq!(infer_freq_hz(&log_with_times(&["a", "50"]), f64_rate), None);
    assert_eq!(infer_freq_hz(&log_with_times(&["0", ""]), f64_rate), None);
    assert_eq!(infer_freq_hz(&log_with_times(&["0", "."]), f64_rate), None);
    assert_eq!(infer_freq_hz(&log_with_times(&["0", "1.2.3"]), f64_rate), None);
    // Infinities and not-a-number, as f64 parsing reads them.
    assert_eq!(infer_freq_hz(&log_with_times(&["0", "inf"]), f64_rate), Some(1));
    assert_eq!(infer_freq_hz(&log_with_times(&["-Infinity", "5"]), f64_rate), Some(1));
    assert_eq!(infer_freq_hz(&log_with_times(&["inf", "5"]), f64_rate), None);
    assert_eq!(infer_freq_hz(&log_with_times(&["0", "-inf"]), f64_rate), None);
    assert_eq!(infer_freq_hz(&log_with_times(&["NaN", "5"]), f64_rate), Some(1));
    // Rounding and reading as f64 does: 800 ms over 6 intervals is just
    // under 7.5 Hz; an exponent is read.
    assert_eq!(infer_freq_hz(&log_with_times(&["9", "0", "0", "0", "0", "0", "809"]), f64_rate), Some(7));
    assert_eq!(infer_freq_hz(&log_with_times(&["0", "1e3"]), f64_rate), Some(1));
    // Only the first and last rows matter.
    assert_eq!(infer_freq_hz(&log_with_times(&["0", "junk", "100"]), f64_rate), Some(20));
    // A row too short for the timestamp column.
    let short = ParsedLog { columns: vec!["x".into(), "timestamp".into()], rows: vec![vec!["0".into(), "0".into()], vec!["1".into()]] };
    assert_eq!(infer_freq_hz(&short, f64_rate), None);
    // No timestamp column.
    let log = ParsedLog { columns: vec!["a".into()], rows: vec![vec!["1".into()], vec!["2".into()]] };
    assert_eq!(infer_freq_hz(&log, f64_rate), None);
}

#[test]
fn rate_falls_back_to_20_hz() {
    let log = ParsedLog {
        columns: vec!["v_batt".into()],
        rows: vec![vec!["12".into()], vec!["13".into()]],
    };
    let bytes = build_ld(&log, &samples_of(&log), infer_freq_hz(&log, f64_rate));
    let pos = LOG_HEADER_SIZE + EVENT_SIZE;
    assert_eq!(u16_at(&bytes, pos + 22), 20);
    assert_eq!(u16_at(&bytes, pos + 16), 8000);
}

#[test]
fn header_text_fields_and_stamp() {
    let log = sample_log();
    let bytes = build_ld_at(&log, &samples_of(&log), infer_freq_hz(&log, f64_rate), "01/02/2024", "03:04:05");
    assert_eq!(&bytes[74..77], b"ADL");
    assert_eq!(&bytes[94..104], b"01/02/2024");
    assert_eq!(&bytes[126..134], b"03:04:05");
    assert_eq!(&bytes[158..164], b"Driver");
    assert_eq!(&bytes[222..227], b"SDM26");
    assert_eq!(&bytes[350..355], b"Track");
    let comment = b"3 channels, logger firmware export";
    assert_eq!(&bytes[1572..1572 + comment.len()], comment);
    assert_eq!(&bytes[1762..1762 + 17], b"Full Data Session");
    assert_eq!(&bytes[1762 + 64..1762 + 64 + 12], b"All channels");
    assert_eq!(&bytes[1762 + 128..1762 + 128 + 10], b"3 channels");
    assert_eq!(u32_at(&bytes, 0), 64);
    assert_eq!(u32_at(&bytes, 36), 1762);
    assert_eq!(u32_at(&bytes, 66), 1_000_000);
    assert_eq!(u32_at(&bytes, 70), 12007);
    assert_eq!(u16_at(&bytes, 82), 420);
    assert_eq!(u16_at(&bytes, 84), 128);
}

#[test]
fn empty_document_has_no_channel_pointers() {
    let doc = LdDocument {
        driver: String::new(),
        vehicle: String::new(),
        venue: String::new(),
        comment: String::new(),
        event_name: String::new(),
        event_session: String::new(),
        event_comment: String::new(),
        date: String::new(),
        time: String::new(),
        channels: vec![],
    };
    let bytes = doc.to_bytes();
    assert_eq!(bytes.len(), LOG_HEADER_SIZE + EVENT_SIZE);
    assert_eq!(u32_at(&bytes, 8), 0);
    assert_eq!(u32_at(&bytes, 12), 0);
    assert_eq!(u32_at(&bytes, 86), 0);
}

#[test]
fn long_texts_are_cut_to_their_fields() {
    let doc = LdDocument {
        driver: "D".repeat(100),
        vehicle: String::new(),
        venue: String::new(),
        comment: String::new(),
        event_name: String::new(),
        event_session: String::new(),
        event_comment: String::new(),
        date: String::new(),
        time: String::new(),
        channels: vec![LdChannel {
            name: "n".repeat(40),
            short_name: "s".repeat(20),
            units: "u".repeat(20),
            freq_hz: 50,
            samples: vec![1.5f32.to_bits(), 0x0102_0304],
        }],
    };
    let bytes = doc.to_bytes();
    assert_eq!(&bytes[158..222], "D".repeat(64).as_bytes());
    assert_eq!(bytes[222], 0);
    let pos = LOG_HEADER_SIZE + EVENT_SIZE;
    assert_eq!(&bytes[pos + 32..pos + 64], "n".repeat(32).as_bytes());
    assert_eq!(&bytes[pos + 64..pos + 72], "s".repeat(8).as_bytes());
    assert_eq!(&bytes[pos + 72..pos + 84], "u".repeat(12).as_bytes());
    assert_eq!(&bytes[pos + 84..pos + 124], &[0u8; 40][..]);
    let data = pos + CHANNEL_HEADER_SIZE;
    assert_eq!(&bytes[data..data + 4], &1.5f32.to_le_bytes());
    assert_eq!(&bytes[data + 4..data + 8], &[4, 3, 2, 1]);
    assert_eq!(bytes.len(), data + 8);
    // shift 0, multiplier 1, scale 1, decimal places 0
    assert_eq!(&bytes[pos + 24..pos + 32], &[0, 0, 1, 0, 1, 0, 0, 0]);
}

#[test]
fn the_stamp_touches_only_its_two_fields() {
    let log = sample_log();
    let samples = samples_of(&log);
    let rate = infer_freq_hz(&log, f64_rate);
    let a = build_ld_at(&log, &samples, rate, "01/02/2024", "03:04:05");
    let b = build_ld_at(&log, &samples, rate, "31/12/1999", "23:59:60");
    assert_eq!(a.len(), b.len());
    for i in 0..a.len() {
        if !((94..110).contains(&i) || (126..142).contains(&i)) {
            assert_eq!(a[i], b[i], "byte {i}");
        }
    }
    assert_ne!(a[94..110], b[94..110]);
    let c = build_ld(&log, &samples, rate);
    assert_eq!(c.len(), a.len());
}
