use logger_client::ui::{
    device_type_label, ota_button_label, parsed_file_message, parsed_folder_message, poll_change, PollChange, Toasts,
};
use logger_client::device::{hex_encode, CanNode, Command, LogEntry, OtaStatus, UPLOAD_CHUNK};
use logger_client::ui::{OtaAction, OtaEvent, OtaJob, OtaProgress, OtaStage};
use logger_client::ui::{
    command_toast, csv_file_name, format_uptime, logging_toggle, logs_status_text, node_label, node_status,
    ota_result_message, sort_entries, sort_nodes, upload_phase, ListStatus, OtaVerdict, OtaWatch, Tab, ToastKind,
    MAX_STALLED_POLLS,
};

#[test]
fn tab_titles() {
    let titles: Vec<&str> = Tab::all().iter().map(|t| t.title()).collect();
    assert_eq!(titles, vec!["Home", "Devices", "Logs", "Console", "Configuration", "Info"]);
}

#[test]
fn uptime_formats() {
    assert_eq!(format_uptime(0), "0:00");
    assert_eq!(format_uptime(59), "0:59");
    assert_eq!(format_uptime(61), "1:01");
    assert_eq!(format_uptime(3599), "59:59");
    assert_eq!(format_uptime(3600), "1:00:00");
    assert_eq!(format_uptime(90061), "25:01:01");
}

#[test]
fn node_texts() {
    assert_eq!(node_label(0x0a), "0x0A");
    assert_eq!(node_label(255), "0xFF");
    let n = |age_ms| CanNode { node: 3, device_type: 1, age_ms };
    assert_eq!(node_status(&n(5000), true), "this device");
    assert_eq!(node_status(&n(2999), false), "online");
    assert_eq!(node_status(&n(-5), false), "online");
    assert_eq!(node_status(&n(3000), false), "3s ago");
    assert_eq!(node_status(&n(125_999), false), "125s ago");
}

#[test]
fn ota_result_messages() {
    assert_eq!(ota_result_message(0, 0x10, true), (true, "logger updated, rebooting".to_string()));
    assert_eq!(ota_result_message(0, 0x2b, false), (true, "node 0x2B updated".to_string()));
    assert_eq!(ota_result_message(4, 1, false), (false, "transfer corrupted (CRC mismatch)".to_string()));
    assert_eq!(ota_result_message(5, 1, false), (false, "logger flash write failed".to_string()));
    assert_eq!(ota_result_message(0xfe, 7, false), (false, "node 0x07 never acknowledged".to_string()));
    assert_eq!(ota_result_message(0xfd, 7, false), (false, "upload stalled before the image was complete".to_string()));
    assert_eq!(ota_result_message(0xf4, 7, true), (false, "upload stalled before the image was complete".to_string()));
    assert_eq!(ota_result_message(2, 7, false), (false, "update rejected (can_ota code 2)".to_string()));
    assert_eq!(ota_result_message(0xf2, 7, false), (false, "update rejected (can_ota code 242)".to_string()));
}

fn status(sent: u32, result: Option<u8>) -> OtaStatus {
    OtaStatus { active: true, sent, total: 100, result }
}

#[test]
fn ota_watch_gives_up_after_stalled_polls() {
    let mut w = OtaWatch::new();
    for i in 1..MAX_STALLED_POLLS {
        assert!(matches!(w.observe(&status(0, None), 1, false), OtaVerdict::Running), "poll {i}");
    }
    match w.observe(&status(0, None), 1, false) {
        OtaVerdict::Failed(m) => assert_eq!(m, "no progress from the logger \u{2014} is the CAN bus active?"),
        other => panic!("unexpected {other:?}"),
    }
}

#[test]
fn ota_watch_progress_resets_the_stall_count() {
    let mut w = OtaWatch::new();
    for _ in 0..100 {
        assert!(matches!(w.observe(&status(0, None), 1, false), OtaVerdict::Running));
    }
    assert!(matches!(w.observe(&status(10, None), 1, false), OtaVerdict::Running));
    assert_eq!(w.stalled_polls, 0);
    assert_eq!(w.last_sent, 10);
    match w.observe(&status(10, Some(0)), 0x21, false) {
        OtaVerdict::Done(m) => assert_eq!(m, "node 0x21 updated"),
        other => panic!("unexpected {other:?}"),
    }
}

#[test]
fn toasts_and_toggles() {
    assert_eq!(command_toast("restart", None), ("restart".to_string(), ToastKind::Success));
    assert_eq!(command_toast("restart", Some("gone")), ("restart failed: gone".to_string(), ToastKind::Error));
    assert_eq!(logging_toggle(Some(true)), ("pause", true, false));
    assert_eq!(logging_toggle(Some(false)), ("resume", true, true));
    assert_eq!(logging_toggle(None), ("pause", false, true));
    assert_eq!(upload_phase(true), "writing to logger flash");
    assert_eq!(upload_phase(false), "streaming to node");
}

#[test]
fn logs_status_texts() {
    assert_eq!(logs_status_text(&ListStatus::Idle, 0), "");
    assert_eq!(logs_status_text(&ListStatus::Idle, 12), "12 log(s)");
    assert_eq!(logs_status_text(&ListStatus::Loading, 3), "loading...");
    assert_eq!(logs_status_text(&ListStatus::Error("timeout".into()), 3), "error: timeout");
}

#[test]
fn nodes_sort_by_id_stably() {
    let nodes = vec![
        CanNode { node: 5, device_type: 1, age_ms: 0 },
        CanNode { node: 2, device_type: 1, age_ms: 0 },
        CanNode { node: 5, device_type: 2, age_ms: 0 },
        CanNode { node: 1, device_type: 1, age_ms: 0 },
    ];
    let sorted = sort_nodes(nodes);
    let keys: Vec<(u8, u8)> = sorted.iter().map(|n| (n.node, n.device_type)).collect();
    assert_eq!(keys, vec![(1, 1), (2, 1), (5, 1), (5, 2)]);
    assert!(sort_nodes(vec![]).is_empty());
}

#[test]
fn entries_sort_newest_first() {
    let e = |name: &str, size| LogEntry { name: name.to_string(), size };
    let sorted = sort_entries(vec![e("0002.bin", 1), e("0010.bin", 2), e("0001.bin", 3), e("0010.bin", 4), e("0002", 5)]);
    let keys: Vec<(&str, u64)> = sorted.iter().map(|x| (x.name.as_str(), x.size)).collect();
    assert_eq!(keys, vec![("0010.bin", 2), ("0010.bin", 4), ("0002.bin", 1), ("0002", 5), ("0001.bin", 3)]);
}

#[test]
fn csv_names() {
    assert_eq!(csv_file_name("0001.bin"), "0001.csv");
    assert_eq!(csv_file_name("a.bin.bin"), "a.csv");
    assert_eq!(csv_file_name("log"), "log.csv");
    assert_eq!(csv_file_name(".bin"), ".csv");
    assert_eq!(csv_file_name("x.BIN"), "x.BIN.csv");
}

#[test]
fn toasts_get_counting_ids_and_expire_alone() {
    let mut t = Toasts::new();
    let a = t.push("saved".to_string(), ToastKind::Success);
    let b = t.push("push failed: gone".to_string(), ToastKind::Error);
    let c = t.push("third".to_string(), ToastKind::Success);
    assert_eq!((a, b, c), (0, 1, 2));
    assert_eq!(t.next_id(), 3);
    t.expire(b);
    let left: Vec<(u64, &str)> = t.entries().iter().map(|(id, x)| (*id, x.message.as_str())).collect();
    assert_eq!(left, vec![(0, "saved"), (2, "third")]);
    t.expire(7);
    assert_eq!(t.entries().len(), 2);
    // Expiring the toast just pushed gives back what was shown before it.
    let d = t.push("brief".to_string(), ToastKind::Error);
    t.expire(d);
    let left: Vec<u64> = t.entries().iter().map(|(id, _)| *id).collect();
    assert_eq!(left, vec![0, 2]);
    assert_eq!(t.next_id(), 4);
}

#[test]
fn list_refresh_runs_only_while_its_tab_is_shown() {
    assert_eq!(poll_change(false, true), PollChange::Stop);
    assert_eq!(poll_change(false, false), PollChange::Stop);
    assert_eq!(poll_change(true, true), PollChange::Keep);
    assert_eq!(poll_change(true, false), PollChange::Start);
}

#[test]
fn parse_messages() {
    assert_eq!(
        parsed_file_message(120, "/logs/0001.bin", "/out/0001.csv", "/out/0001.ld"),
        "parsed 120 rows from /logs/0001.bin, saved /out/0001.csv and /out/0001.ld"
    );
    assert_eq!(parsed_folder_message("/logs", 0, &vec![]), "no .bin log files found in /logs");
    assert_eq!(parsed_folder_message("/logs", 3, &vec![]), "parsed 3 log file(s) in /logs");
    assert_eq!(
        parsed_folder_message("/logs", 3, &vec!["0002.bin: bad magic".to_string(), "0003.bin: truncated".to_string()]),
        "parsed 1/3 log file(s) in /logs (2 failed: 0002.bin: bad magic; 0003.bin: truncated)"
    );
}

#[test]
fn node_row_labels() {
    assert_eq!(ota_button_label(true, true), "updating...");
    assert_eq!(ota_button_label(false, true), "update this logger");
    assert_eq!(ota_button_label(false, false), "update fw");
    assert_eq!(device_type_label("Dash", true, 3), "Dash");
    assert_eq!(device_type_label("Unknown", false, 0xab), "Unknown (0xAB)");
}

fn upload_of(a: &OtaAction) -> (u64, String) {
    match a {
        OtaAction::Request(Command::OtaUpload { offset, data }) => (*offset, data.clone()),
        _ => panic!("upload request expected"),
    }
}

#[test]
fn an_update_needs_a_non_empty_file() {
    let (job, a) = OtaJob::start(5, None, 0, false);
    assert!(job.is_none() && matches!(a, OtaAction::Done(m) if m == "cancelled"));
    let (job, a) = OtaJob::start(5, Some(vec![]), 0, false);
    assert!(job.is_none() && matches!(a, OtaAction::Failed(m) if m == "firmware file is empty"));
}

#[test]
fn an_update_announces_uploads_in_order_then_polls() {
    let image: Vec<u8> = (0..5000u32).map(|i| (i % 251) as u8).collect();
    let (job, a) = OtaJob::start(0x21, Some(image.clone()), 0xabcd, false);
    let mut job = job.unwrap();
    assert!(matches!(a, OtaAction::Request(Command::OtaFlash { node: 0x21, size: 5000, crc: 0xabcd })));
    let (shown, a) = job.step(OtaEvent::FlashAccepted);
    assert_eq!(shown, vec![OtaProgress { verifying: false, done: 0, total: 5000 }]);
    assert_eq!(upload_of(&a), (0, hex_encode(&image[..UPLOAD_CHUNK])));
    let (shown, a) = job.step(OtaEvent::Uploaded { committed: 2048 });
    assert_eq!(shown, vec![OtaProgress { verifying: false, done: 2048, total: 5000 }]);
    assert_eq!(upload_of(&a), (2048, hex_encode(&image[2048..4096])));
    let (_, a) = job.step(OtaEvent::Uploaded { committed: 4096 });
    assert_eq!(upload_of(&a), (4096, hex_encode(&image[4096..])));
    let (shown, a) = job.step(OtaEvent::Uploaded { committed: 5000 });
    assert_eq!(
        shown,
        vec![OtaProgress { verifying: false, done: 5000, total: 5000 }, OtaProgress { verifying: true, done: 0, total: 5000 }]
    );
    assert!(matches!(a, OtaAction::PollStatus));
    assert_eq!(job.stage, OtaStage::Verifying);
    let (shown, a) = job.step(OtaEvent::Status(OtaStatus { active: true, sent: 10, total: 0, result: None }));
    assert_eq!(shown, vec![OtaProgress { verifying: true, done: 10, total: 1 }]);
    assert!(matches!(a, OtaAction::PollStatus));
    let (_, a) = job.step(OtaEvent::Status(OtaStatus { active: false, sent: 10, total: 10, result: Some(0) }));
    assert!(matches!(a, OtaAction::Done(m) if m == "node 0x21 updated"));
    assert_eq!(job.stage, OtaStage::Finished);
}

#[test]
fn an_update_ends_on_failed_or_unexpected_replies() {
    let (job, _) = OtaJob::start(0, Some(vec![1, 2, 3]), 7, true);
    let mut job = job.unwrap();
    assert!(matches!(job.step(OtaEvent::Uploaded { committed: 3 }).1, OtaAction::Unexpected(n) if n == "ota_flash"));

    let (job, _) = OtaJob::start(9, Some(vec![1, 2, 3]), 7, false);
    let mut job = job.unwrap();
    job.step(OtaEvent::FlashAccepted);
    assert!(matches!(job.step(OtaEvent::RequestFailed).1, OtaAction::RequestError));

    let (job, _) = OtaJob::start(0, Some(vec![1, 2, 3]), 7, true);
    let mut job = job.unwrap();
    job.step(OtaEvent::FlashAccepted);
    assert!(matches!(job.step(OtaEvent::Uploaded { committed: 3 }).1, OtaAction::PollStatus));
    assert!(matches!(job.step(OtaEvent::RequestFailed).1, OtaAction::Done(m) if m == "logger updated, rebooting"));

    let (job, _) = OtaJob::start(9, Some(vec![1, 2, 3]), 7, false);
    let mut job = job.unwrap();
    job.step(OtaEvent::FlashAccepted);
    job.step(OtaEvent::Uploaded { committed: 3 });
    assert!(matches!(job.step(OtaEvent::FlashAccepted).1, OtaAction::Unexpected(n) if n == "ota_status"));
}
