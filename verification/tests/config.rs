use logger_client::config::{parse_can_id as read_id};
use logger_client::config_tab::{ConfigJob, ConfigStatus, ConfigTab, JobOutcome};
use logger_client::ui::ToastKind;
use logger_client::config::{
    build_config, float_field_text, parse_can_id, parse_field, AdcChannelForm, CanDeviceForm, ConfigForm,
    SignalForm, SignalGroupForm, Signals, SignalsForm, StoredChannel, StoredConfig, StoredDevice, StoredGroup,
    StoredMuxed, StoredSignal, StoredSignals,
};

fn fixed(signals: Vec<StoredSignal>) -> StoredSignals {
    StoredSignals { fixed: Some(signals), muxed: None }
}
use logger_client::decimal::is_float_text;

#[test]
fn can_ids() {
    assert_eq!(parse_can_id("0x1A0"), Some(0x1a0));
    assert_eq!(parse_can_id("0X1a0"), Some(0x1a0));
    assert_eq!(parse_can_id("  416\t"), Some(416));
    assert_eq!(parse_can_id("+7"), Some(7));
    assert_eq!(parse_can_id("0x+f"), Some(15));
    assert_eq!(parse_can_id("0xFFFFFFFF"), Some(u32::MAX));
    assert_eq!(parse_can_id("4294967296"), None);
    assert_eq!(parse_can_id("0x100000000"), None);
    assert_eq!(parse_can_id("0x"), None);
    assert_eq!(parse_can_id(""), None);
    assert_eq!(parse_can_id("-1"), None);
    assert_eq!(parse_can_id("12z"), None);
    assert_eq!(parse_can_id("\u{a0}0x10\u{3000}"), Some(16));
}

#[test]
fn form_fields() {
    assert_eq!(parse_field(" 255 ", u8::MAX as u64), Some(255));
    assert_eq!(parse_field("256", u8::MAX as u64), None);
    assert_eq!(parse_field("0", u8::MAX as u64), Some(0));
    assert_eq!(parse_field("", u64::MAX), None);
    assert_eq!(parse_field("18446744073709551615", u64::MAX), Some(u64::MAX));
    assert_eq!(parse_field("18446744073709551616", u64::MAX), None);
    assert_eq!(parse_field("1 2", u64::MAX), None);
}

fn chars(s: &str) -> Vec<char> {
    s.chars().collect()
}

#[test]
fn float_texts_follow_f32_from_str() {
    for t in ["1", "-2.5", ".5", "3.", "1e3", "1E-3", "+4e+2", "inf", "-Infinity", "NaN", "0.000", "7e0"] {
        assert!(is_float_text(&chars(t)), "{t}");
        assert!(t.parse::<f32>().is_ok(), "{t}");
    }
    for t in ["", ".", "e3", "1e", "1e+", "1.2.3", "--1", "+-1", "1 ", "0x10", "infinit", "1e3.5", "nan1", "1_000"] {
        assert!(!is_float_text(&chars(t)), "{t}");
        assert!(t.parse::<f32>().is_err(), "{t}");
    }
}

#[test]
fn float_fields_trim_and_allow_empty() {
    assert_eq!(float_field_text("  "), Some(None));
    assert_eq!(float_field_text(" 0.5 "), Some(Some("0.5".to_string())));
    assert_eq!(float_field_text("x"), None);
}

fn signal(name: &str, start: &str, len: &str, scale: &str, offset: &str) -> SignalForm {
    SignalForm {
        name: name.to_string(),
        start: start.to_string(),
        len: len.to_string(),
        signed: true,
        big_endian: false,
        scale: scale.to_string(),
        offset: offset.to_string(),
    }
}

fn device(id: &str, signals: SignalsForm) -> CanDeviceForm {
    CanDeviceForm { id: id.to_string(), extended: false, fd: true, signals }
}

fn channel(name: &str, ch: &str, scale: &str, offset: &str) -> AdcChannelForm {
    AdcChannelForm { name: name.to_string(), channel: ch.to_string(), scale: scale.to_string(), offset: offset.to_string() }
}

#[test]
fn a_valid_form_builds_its_config() {
    let form = ConfigForm {
        can_devices: vec![
            device("0x1A0", SignalsForm::Fixed(vec![signal("rpm", " 0", "2", "0.25", ""), signal("tps", "2", "1", "", "-40")])),
            device(
                "42",
                SignalsForm::Muxed {
                    byte: "0".to_string(),
                    groups: vec![SignalGroupForm { type_val: "3".to_string(), signals: vec![signal("a", "1", "2", "", "")] }],
                },
            ),
        ],
        adc_channels: vec![channel("brake", "4", "1e-3", " ")],
    };
    let c = build_config(&form).unwrap();
    assert_eq!(c.can_devices.len(), 2);
    assert_eq!(c.can_devices[0].id, 0x1a0);
    assert!(c.can_devices[0].fd && !c.can_devices[0].extended);
    match &c.can_devices[0].signals {
        Signals::Fixed(v) => {
            assert_eq!(v.len(), 2);
            assert_eq!(v[0].name, "rpm");
            assert_eq!((v[0].start, v[0].len), (0, 2));
            assert_eq!(v[0].scale.as_deref(), Some("0.25"));
            assert_eq!(v[0].offset, None);
            assert!(v[0].signed && !v[0].big_endian);
            assert_eq!(v[1].scale, None);
            assert_eq!(v[1].offset.as_deref(), Some("-40"));
        },
        _ => panic!("fixed signals expected"),
    }
    match &c.can_devices[1].signals {
        Signals::Muxed { byte, groups } => {
            assert_eq!(*byte, 0);
            assert_eq!(groups.len(), 1);
            assert_eq!(groups[0].type_val, 3);
            assert_eq!(groups[0].signals[0].name, "a");
        },
        _ => panic!("muxed signals expected"),
    }
    assert_eq!(c.adc_channels[0].channel, 4);
    assert_eq!(c.adc_channels[0].scale.as_deref(), Some("1e-3"));
    assert_eq!(c.adc_channels[0].offset, None);
}

fn first_error(form: ConfigForm) -> String {
    match build_config(&form) {
        Ok(_) => panic!("an error was expected"),
        Err(e) => e,
    }
}

#[test]
fn errors_name_the_first_bad_field() {
    let e = first_error(ConfigForm {
        can_devices: vec![device("0x10", SignalsForm::Fixed(vec![])), device("zz", SignalsForm::Fixed(vec![]))],
        adc_channels: vec![channel("x", "999", "", "")],
    });
    assert_eq!(e, "CAN device 2: invalid id \"zz\"");

    let e = first_error(ConfigForm {
        can_devices: vec![device("1", SignalsForm::Fixed(vec![signal("a", "0", "1", "", ""), signal("b", "0", "x", "y", "")]))],
        adc_channels: vec![],
    });
    assert_eq!(e, "CAN device 1 signal 2: invalid len \"x\"");

    let e = first_error(ConfigForm {
        can_devices: vec![device("1", SignalsForm::Fixed(vec![signal("a", "0", "1", "1..", "")]))],
        adc_channels: vec![],
    });
    assert_eq!(e, "CAN device 1 signal 1: invalid scale \"1..\"");

    let e = first_error(ConfigForm {
        can_devices: vec![device("1", SignalsForm::Muxed { byte: " b".to_string(), groups: vec![] })],
        adc_channels: vec![],
    });
    assert_eq!(e, "CAN device 1: invalid mux byte \" b\"");

    let e = first_error(ConfigForm {
        can_devices: vec![device(
            "1",
            SignalsForm::Muxed {
                byte: "2".to_string(),
                groups: vec![
                    SignalGroupForm { type_val: "1".to_string(), signals: vec![] },
                    SignalGroupForm { type_val: "256".to_string(), signals: vec![] },
                ],
            },
        )],
        adc_channels: vec![],
    });
    assert_eq!(e, "CAN device 1 group 2: invalid type_val \"256\"");

    let e = first_error(ConfigForm {
        can_devices: vec![device(
            "1",
            SignalsForm::Muxed {
                byte: "2".to_string(),
                groups: vec![SignalGroupForm { type_val: "1".to_string(), signals: vec![signal("s", "-1", "1", "", "")] }],
            },
        )],
        adc_channels: vec![],
    });
    assert_eq!(e, "CAN device 1 group 1 signal 1: invalid start \"-1\"");

    let e = first_error(ConfigForm { can_devices: vec![], adc_channels: vec![channel("x", "0", "", "1,5")] });
    assert_eq!(e, "ADC channel 1: invalid offset \"1,5\"");
    let e = first_error(ConfigForm { can_devices: vec![], adc_channels: vec![channel("x", "", "", "")] });
    assert_eq!(e, "ADC channel 1: invalid channel \"\"");
}

#[test]
fn an_empty_form_builds_an_empty_config() {
    let c = build_config(&ConfigForm { can_devices: vec![], adc_channels: vec![] }).unwrap();
    assert!(c.can_devices.is_empty() && c.adc_channels.is_empty());
}

fn stored_signal(name: Option<&str>, start: Option<u64>, len: Option<u64>) -> StoredSignal {
    StoredSignal {
        name: name.map(|s| s.to_string()),
        start,
        len,
        signed: Some(true),
        big_endian: None,
        scale: Some("0.5".to_string()),
        offset: None,
    }
}

#[test]
fn the_form_is_filled_with_defaults_for_missing_fields() {
    let stored = StoredConfig {
        can_devices: Some(vec![
            StoredDevice {
                id: Some(0x7e8),
                extended: None,
                fd: Some(true),
                signals: Some(fixed(vec![stored_signal(Some("rpm"), Some(3), None), stored_signal(None, None, Some(4))])),
            },
            StoredDevice { id: None, extended: Some(true), fd: None, signals: None },
            StoredDevice {
                id: Some(0),
                extended: None,
                fd: None,
                signals: Some(StoredSignals {
                    fixed: None,
                    muxed: Some(StoredMuxed {
                        byte: None,
                        groups: Some(vec![StoredGroup { type_val: Some(9), signals: None }]),
                    }),
                }),
            },
            StoredDevice { id: Some(1), extended: None, fd: None, signals: Some(StoredSignals { fixed: None, muxed: None }) },
        ]),
        adc_channels: Some(vec![StoredChannel { name: Some("brake".to_string()), channel: None, scale: None, offset: Some("-1".to_string()) }]),
    };
    let f = ConfigForm::from_stored(&stored);
    assert_eq!(f.can_devices.len(), 4);
    assert_eq!(f.can_devices[0].id, "0x7E8");
    assert!(!f.can_devices[0].extended && f.can_devices[0].fd);
    match &f.can_devices[0].signals {
        SignalsForm::Fixed(v) => {
            assert_eq!((v[0].name.as_str(), v[0].start.as_str(), v[0].len.as_str()), ("rpm", "3", "1"));
            assert_eq!((v[1].name.as_str(), v[1].start.as_str(), v[1].len.as_str()), ("", "0", "4"));
            assert!(v[0].signed && !v[0].big_endian);
            assert_eq!((v[0].scale.as_str(), v[0].offset.as_str()), ("0.5", ""));
        },
        _ => panic!("fixed signals expected"),
    }
    assert_eq!(f.can_devices[1].id, "");
    assert!(f.can_devices[1].extended);
    assert!(matches!(&f.can_devices[1].signals, SignalsForm::Fixed(v) if v.is_empty()));
    assert_eq!(f.can_devices[2].id, "0x0");
    match &f.can_devices[2].signals {
        SignalsForm::Muxed { byte, groups } => {
            assert_eq!(byte, "0");
            assert_eq!(groups.len(), 1);
            assert_eq!(groups[0].type_val, "9");
            assert!(groups[0].signals.is_empty());
        },
        _ => panic!("muxed signals expected"),
    }
    assert!(matches!(&f.can_devices[3].signals, SignalsForm::Fixed(v) if v.is_empty()));
    assert_eq!(f.adc_channels[0].name, "brake");
    assert_eq!(f.adc_channels[0].channel, "");
    assert_eq!(f.adc_channels[0].offset, "-1");

    let empty = ConfigForm::from_stored(&StoredConfig { can_devices: None, adc_channels: None });
    assert!(empty.can_devices.is_empty() && empty.adc_channels.is_empty());
}

#[test]
fn a_loaded_config_builds_back_to_the_same_values() {
    let stored = StoredConfig {
        can_devices: Some(vec![StoredDevice {
            id: Some(0xFFFF_FFFF),
            extended: Some(true),
            fd: None,
            signals: Some(fixed(vec![stored_signal(Some("rpm"), Some(12), Some(2))])),
        }]),
        adc_channels: Some(vec![StoredChannel { name: None, channel: Some(255), scale: Some("1.5".to_string()), offset: None }]),
    };
    let c = build_config(&ConfigForm::from_stored(&stored)).unwrap();
    assert_eq!(c.can_devices[0].id, 0xFFFF_FFFF);
    assert!(c.can_devices[0].extended);
    match &c.can_devices[0].signals {
        Signals::Fixed(v) => {
            assert_eq!((v[0].start, v[0].len), (12, 2));
            assert_eq!(v[0].scale.as_deref(), Some("0.5"));
        },
        _ => panic!("fixed signals expected"),
    }
    assert_eq!(c.adc_channels[0].channel, 255);
    assert_eq!(c.adc_channels[0].scale.as_deref(), Some("1.5"));
}

#[test]
fn one_configuration_job_at_a_time() {
    let mut tab = ConfigTab::new();
    assert_eq!(tab.status_text(), "not loaded");
    assert!(tab.auto_fetch());
    assert_eq!(tab.status_text(), "working...");
    assert!(!tab.start_job());
    let (fill, toast) = tab.finish(ConfigJob::Refresh, JobOutcome::Done(String::new()));
    assert!(fill && toast.is_none() && tab.loaded);
    assert_eq!(tab.status_text(), "in sync with last fetch/push");
    // The automatic fetch happens once.
    assert!(!tab.auto_fetch());
    assert!(matches!(tab.status, ConfigStatus::Idle));
}

#[test]
fn job_outcomes_set_status_and_toasts() {
    let mut tab = ConfigTab::new();
    assert!(tab.start_job());
    let (fill, toast) = tab.finish(ConfigJob::Refresh, JobOutcome::Unexpected("unexpected response: Pong".to_string()));
    assert!(!fill && toast.is_none());
    assert_eq!(tab.status_text(), "error: unexpected response: Pong");

    assert!(tab.start_job());
    let (fill, toast) = tab.finish(ConfigJob::LoadFile, JobOutcome::Failed("bad json".to_string()));
    assert!(!fill);
    assert_eq!(toast, Some(("load configuration failed: bad json".to_string(), ToastKind::Error)));
    assert_eq!(tab.status_text(), "error: bad json");

    assert!(tab.start_job());
    let (fill, toast) = tab.finish(ConfigJob::SaveFile, JobOutcome::Done("/tmp/config.json".to_string()));
    assert!(fill && tab.loaded);
    assert_eq!(toast, Some(("saved to /tmp/config.json".to_string(), ToastKind::Success)));

    assert!(tab.start_job());
    let (_, toast) = tab.finish(ConfigJob::SaveFile, JobOutcome::Failed("disk full".to_string()));
    assert_eq!(toast, Some(("save configuration failed: disk full".to_string(), ToastKind::Error)));
    assert!(matches!(tab.status, ConfigStatus::Idle));

    assert!(tab.start_job());
    let (fill, toast) = tab.finish(ConfigJob::Push, JobOutcome::Done(String::new()));
    assert!(!fill);
    assert_eq!(toast, Some(("configuration pushed".to_string(), ToastKind::Success)));
    assert!(tab.start_job());
    let (_, toast) = tab.finish(ConfigJob::Push, JobOutcome::Failed("device thread gone".to_string()));
    assert_eq!(toast, Some(("push failed: device thread gone".to_string(), ToastKind::Error)));
    assert!(tab.start_job());
    let (_, toast) = tab.finish(ConfigJob::Push, JobOutcome::Unexpected("unexpected response: Pong".to_string()));
    assert_eq!(toast, Some(("unexpected response: Pong".to_string(), ToastKind::Error)));

    assert!(tab.start_job());
    let (fill, toast) = tab.finish(ConfigJob::LoadFile, JobOutcome::Cancelled);
    assert!(!fill && toast.is_none());
    assert_eq!(tab.status_text(), "in sync with last fetch/push");
}

#[test]
fn new_rows_hold_defaults_that_check() {
    let mut d = CanDeviceForm::new();
    assert_eq!(d.id, "0");
    assert_eq!(d.signals.signal_count(), 0);
    d.signals = SignalsForm::Fixed(vec![SignalForm::new(), SignalForm::new()]);
    assert_eq!(d.signals.signal_count(), 2);
    let mut muxed = SignalsForm::empty_muxed();
    if let SignalsForm::Muxed { groups, .. } = &mut muxed {
        let mut g = SignalGroupForm::new();
        g.signals.push(SignalForm::new());
        groups.push(g);
        let mut g2 = SignalGroupForm::new();
        g2.signals.push(SignalForm::new());
        g2.signals.push(SignalForm::new());
        groups.push(g2);
    }
    assert_eq!(muxed.signal_count(), 3);
    let form = ConfigForm { can_devices: vec![d, CanDeviceForm { signals: muxed, ..CanDeviceForm::new() }], adc_channels: vec![AdcChannelForm::new()] };
    let c = build_config(&form).unwrap();
    assert_eq!(c.can_devices[0].id, 0);
    match &c.can_devices[0].signals {
        Signals::Fixed(v) => assert_eq!((v[0].start, v[0].len, v[0].scale.clone(), v[0].offset.clone()), (0, 1, None, None)),
        _ => panic!("fixed signals expected"),
    }
    assert_eq!(c.adc_channels[0].channel, 0);
}

#[test]
fn ids_in_every_written_form_read_back() {
    for n in [0u32, 9, 10, 0x7e8, 0x1fff_ffff, u32::MAX] {
        assert_eq!(read_id(&format!("0x{n:X}")), Some(n));
        assert_eq!(read_id(&format!("0x{n:x}")), Some(n));
        assert_eq!(read_id(&n.to_string()), Some(n));
    }
}

#[test]
fn signal_rows_are_edited_in_place() {
    let mut fixed = SignalsForm::Fixed(vec![signal("a", "0", "1", "", ""), signal("b", "1", "1", "", ""), signal("c", "2", "1", "", "")]);
    fixed.set_signal_flags(None, 1, false, true);
    fixed.remove_signal(None, 0);
    match &fixed {
        SignalsForm::Fixed(v) => {
            assert_eq!(v.iter().map(|s| s.name.as_str()).collect::<Vec<_>>(), vec!["b", "c"]);
            assert!(!v[0].signed && v[0].big_endian);
            assert!(v[1].signed && !v[1].big_endian);
        },
        _ => panic!("fixed signals expected"),
    }
    // A group index on fixed signals changes nothing.
    fixed.remove_signal(Some(0), 0);
    assert_eq!(fixed.signal_count(), 2);

    let mut muxed = SignalsForm::Muxed {
        byte: "1".to_string(),
        groups: vec![
            SignalGroupForm { type_val: "1".to_string(), signals: vec![signal("x", "0", "1", "", "")] },
            SignalGroupForm { type_val: "2".to_string(), signals: vec![signal("y", "0", "1", "", ""), signal("z", "1", "1", "", "")] },
        ],
    };
    muxed.set_signal_flags(Some(1), 1, false, true);
    muxed.remove_signal(Some(1), 0);
    match &muxed {
        SignalsForm::Muxed { byte, groups } => {
            assert_eq!(byte, "1");
            assert_eq!(groups[0].signals.len(), 1);
            assert_eq!(groups[1].type_val, "2");
            assert_eq!(groups[1].signals.len(), 1);
            assert_eq!(groups[1].signals[0].name, "z");
            assert!(groups[1].signals[0].big_endian && !groups[1].signals[0].signed);
        },
        _ => panic!("muxed signals expected"),
    }
    muxed.remove_signal(None, 0);
    assert_eq!(muxed.signal_count(), 2);
}

#[test]
fn a_fixed_list_wins_over_a_muxed_set() {
    let both = StoredSignals {
        fixed: Some(vec![stored_signal(Some("rpm"), Some(3), None)]),
        muxed: Some(StoredMuxed { byte: Some(2), groups: Some(vec![StoredGroup { type_val: Some(1), signals: None }]) }),
    };
    match SignalsForm::from_stored(&both) {
        SignalsForm::Fixed(v) => {
            assert_eq!(v.len(), 1);
            assert_eq!(v[0].name, "rpm");
        },
        _ => panic!("fixed signals expected"),
    }
    let muxed = StoredSignals { fixed: None, muxed: Some(StoredMuxed { byte: Some(2), groups: None }) };
    match SignalsForm::from_stored(&muxed) {
        SignalsForm::Muxed { byte, groups } => {
            assert_eq!(byte, "2");
            assert!(groups.is_empty());
        },
        _ => panic!("muxed signals expected"),
    }
}
