//! What the interface shows and decides: tab titles, uptime and node
//! labels, the firmware-update watch, toasts, and the order of lists.

use vstd::prelude::*;
use vstd::string::*;
use crate::device::{
    hex_text, ota_flash_command, ota_upload_command, upload_chunk_count, CanNode, Command, LogEntry, OtaStatus,
    UPLOAD_CHUNK,
};
use crate::text::{chars_lt, decimal_chars, decimal_text, digit_char, push_char, str_lt, upper_hex_digit, lemma_chars_lt_order, lemma_chars_lt_transitive};

verus! {

/// The tabs of the main window, in display order.
#[derive(Clone, Copy, PartialEq, Eq, Structural, Debug)]
pub enum Tab {
    Home,
    Devices,
    Logs,
    Console,
    Configuration,
    Info,
}

impl Tab {
    /// The tabs in display order.
    pub fn all() -> (r: [Tab; 6])
        ensures
            r@ == seq![Tab::Home, Tab::Devices, Tab::Logs, Tab::Console, Tab::Configuration, Tab::Info],
    {
        [Tab::Home, Tab::Devices, Tab::Logs, Tab::Console, Tab::Configuration, Tab::Info]
    }

    pub open spec fn spec_title(self) -> Seq<char> {
        match self {
            Tab::Home => "Home"@,
            Tab::Devices => "Devices"@,
            Tab::Logs => "Logs"@,
            Tab::Console => "Console"@,
            Tab::Configuration => "Configuration"@,
            Tab::Info => "Info"@,
        }
    }

    /// The label of the tab.
    pub fn title(self) -> (r: &'static str)
        ensures
            r@ == self.spec_title(),
    {
        match self {
            Tab::Home => "Home",
            Tab::Devices => "Devices",
            Tab::Logs => "Logs",
            Tab::Console => "Console",
            Tab::Configuration => "Configuration",
            Tab::Info => "Info",
        }
    }
}

/// Two decimal digits of `n < 100`, zero-padded.
pub open spec fn two_digits(n: nat) -> Seq<char> {
    seq![digit_char(n / 10), digit_char(n % 10)]
}

fn push_two_digits(out: &mut String, n: u64)
    requires
        n < 100,
    ensures
        final(out)@ == old(out)@ + two_digits(n as nat),
{
    push_char(out, ((48 + n / 10) as u8) as char);
    push_char(out, ((48 + n % 10) as u8) as char);
    assert(final(out)@ =~= old(out)@ + two_digits(n as nat));
}

/// An uptime as `h:mm:ss`, or `m:ss` under an hour.
pub open spec fn uptime_text(secs: nat) -> Seq<char> {
    let h = secs / 3600;
    let m = (secs % 3600) / 60;
    let s = secs % 60;
    if h > 0 {
        decimal_chars(h) + ":"@ + two_digits(m) + ":"@ + two_digits(s)
    } else {
        decimal_chars(m) + ":"@ + two_digits(s)
    }
}

/// Formats an uptime in seconds.
pub fn format_uptime(secs: u64) -> (r: String)
    ensures
        r@ == uptime_text(secs as nat),
{
    proof {
        reveal_strlit(":");
    }
    let h = secs / 3600;
    let m = (secs % 3600) / 60;
    let s = secs % 60;
    let mut out: String;
    if h > 0 {
        out = decimal_text(h);
        out.append(":");
        push_two_digits(&mut out, m);
    } else {
        out = decimal_text(m);
    }
    out.append(":");
    push_two_digits(&mut out, s);
    out
}

/// A byte as `0x` and two upper-case hex digits.
pub open spec fn byte_label(b: u8) -> Seq<char> {
    "0x"@ + seq![upper_hex_digit((b / 16) as nat), upper_hex_digit((b % 16) as nat)]
}

fn push_upper_hex(out: &mut String, d: u8)
    requires
        d < 16,
    ensures
        final(out)@ == old(out)@.push(upper_hex_digit(d as nat)),
{
    let c = if d < 10 { (48u8 + d) as char } else { (55u8 + d) as char };
    push_char(out, c);
}

/// A node id or byte as `0x` and two upper-case hex digits.
pub fn node_label(b: u8) -> (r: String)
    ensures
        r@ == byte_label(b),
{
    proof {
        reveal_strlit("0x");
    }
    let mut out = String::new();
    out.append("0x");
    push_upper_hex(&mut out, b / 16);
    push_upper_hex(&mut out, b % 16);
    assert(out@ =~= byte_label(b));
    out
}

/// A CAN node counts as online while its last heartbeat is younger than this.
pub const ONLINE_MS: i64 = 3000;

/// The status shown for a CAN node.
pub open spec fn node_status_text(node: CanNode, is_self: bool) -> Seq<char> {
    if is_self {
        "this device"@
    } else if node.age_ms < ONLINE_MS {
        "online"@
    } else {
        decimal_chars((node.age_ms / 1000) as nat) + "s ago"@
    }
}

/// Status of a CAN node: this logger itself, online, or how long ago it
/// was last heard from (whole seconds).
pub fn node_status(node: &CanNode, is_self: bool) -> (r: String)
    ensures
        r@ == node_status_text(*node, is_self),
{
    if is_self {
        "this device".to_owned()
    } else if node.age_ms < ONLINE_MS {
        "online".to_owned()
    } else {
        let mut out = decimal_text((node.age_ms / 1000) as u64);
        out.append("s ago");
        out
    }
}

/// Polls in a row without progress after which an update is given up.
pub const MAX_STALLED_POLLS: u32 = 120;

/// Where a firmware update stands after a status poll.
#[derive(Debug)]
pub enum OtaVerdict {
    /// Still going.
    Running,
    /// Finished well, with the message to show.
    Done(String),
    /// Failed, with the message to show.
    Failed(String),
}

/// The message for a finished update, by its result code.
pub open spec fn ota_result_text(code: u8, node: u8, is_logger: bool) -> (bool, Seq<char>) {
    if code == 0 && is_logger {
        (true, "logger updated, rebooting"@)
    } else if code == 0 {
        (true, "node "@ + byte_label(node) + " updated"@)
    } else if code == 4 {
        (false, "transfer corrupted (CRC mismatch)"@)
    } else if code == 5 {
        (false, "logger flash write failed"@)
    } else if code == 0xfe {
        (false, "node "@ + byte_label(node) + " never acknowledged"@)
    } else if code == 0xfd || code == 0xf4 {
        (false, "upload stalled before the image was complete"@)
    } else {
        (false, "update rejected (can_ota code "@ + decimal_chars(code as nat) + ")"@)
    }
}

/// The message for a finished update; `true` for success.
pub fn ota_result_message(code: u8, node: u8, is_logger: bool) -> (r: (bool, String))
    ensures
        (r.0, r.1@) == ota_result_text(code, node, is_logger),
{
    if code == 0 && is_logger {
        (true, "logger updated, rebooting".to_owned())
    } else if code == 0 {
        let mut m = "node ".to_owned();
        m.append(node_label(node).as_str());
        m.append(" updated");
        (true, m)
    } else if code == 4 {
        (false, "transfer corrupted (CRC mismatch)".to_owned())
    } else if code == 5 {
        (false, "logger flash write failed".to_owned())
    } else if code == 0xfe {
        let mut m = "node ".to_owned();
        m.append(node_label(node).as_str());
        m.append(" never acknowledged");
        (false, m)
    } else if code == 0xfd || code == 0xf4 {
        (false, "upload stalled before the image was complete".to_owned())
    } else {
        let mut m = "update rejected (can_ota code ".to_owned();
        m.append(decimal_text(code as u64).as_str());
        m.append(")");
        (false, m)
    }
}

/// Watches the status polls of an update's verification phase: the last
/// `sent` count seen and how many polls in a row it has not moved.
pub struct OtaWatch {
    pub last_sent: u32,
    pub stalled_polls: u32,
}

impl OtaWatch {
    /// Nothing sent yet, no stalled poll.
    pub fn new() -> (r: OtaWatch)
        ensures
            r.last_sent == 0,
            r.stalled_polls == 0,
    {
        OtaWatch { last_sent: 0, stalled_polls: 0 }
    }

    /// Takes in one status poll. A poll whose `sent` equals the last one
    /// counts as stalled; a result code ends the update; with no result,
    /// `MAX_STALLED_POLLS` stalled polls in a row give up.
    pub fn observe(&mut self, status: &OtaStatus, node: u8, is_logger: bool) -> (v: OtaVerdict)
        requires
            old(self).stalled_polls < MAX_STALLED_POLLS,
        ensures
            final(self).last_sent == status.sent,
            final(self).stalled_polls == (if status.sent == old(self).last_sent { old(self).stalled_polls + 1 } else { 0 }),
            match status.result {
                Some(code) => match v {
                    OtaVerdict::Done(m) => ota_result_text(code, node, is_logger) == (true, m@),
                    OtaVerdict::Failed(m) => ota_result_text(code, node, is_logger) == (false, m@),
                    OtaVerdict::Running => false,
                },
                None => if final(self).stalled_polls >= MAX_STALLED_POLLS {
                    v matches OtaVerdict::Failed(m) && m@ == "no progress from the logger \u{2014} is the CAN bus active?"@
                } else {
                    v is Running
                },
            },
            v is Running ==> final(self).stalled_polls < MAX_STALLED_POLLS,
    {
        self.stalled_polls = if status.sent == self.last_sent { self.stalled_polls + 1 } else { 0 };
        self.last_sent = status.sent;
        match status.result {
            None => {
                if self.stalled_polls >= MAX_STALLED_POLLS {
                    OtaVerdict::Failed("no progress from the logger \u{2014} is the CAN bus active?".to_owned())
                } else {
                    OtaVerdict::Running
                }
            },
            Some(code) => {
                let (ok, m) = ota_result_message(code, node, is_logger);
                if ok {
                    OtaVerdict::Done(m)
                } else {
                    OtaVerdict::Failed(m)
                }
            },
        }
    }
}

/// The phase shown while the image is uploaded.
pub fn upload_phase(is_logger: bool) -> (r: &'static str)
    ensures
        r@ == (if is_logger { "writing to logger flash"@ } else { "streaming to node"@ }),
{
    if is_logger { "writing to logger flash" } else { "streaming to node" }
}

/// A progress report of a firmware update: how far it got, in the upload
/// phase or in the verifying phase.
#[derive(Clone, Copy, PartialEq, Eq, Structural, Debug)]
pub struct OtaProgress {
    pub verifying: bool,
    pub done: u64,
    pub total: u64,
}

/// Where a firmware update job stands.
#[derive(Clone, Copy, PartialEq, Eq, Structural, Debug)]
pub enum OtaStage {
    /// The image was announced with an `ota_flash` request.
    Announced,
    /// The upload request of chunk `i` is out.
    Uploading(usize),
    /// The logger is asked for the update's status.
    Verifying,
    /// The job is over.
    Finished,
}

/// What the reply to the job's last request brings.
pub enum OtaEvent {
    /// `ota_flash` was accepted.
    FlashAccepted,
    /// An `ota_upload` reply, with the logger's committed count.
    Uploaded { committed: u32 },
    /// An `ota_status` reply.
    Status(OtaStatus),
    /// The request failed: no reply, or an error reply.
    RequestFailed,
    /// A reply of another kind than the request asks for.
    OtherReply,
}

/// What a firmware update job does next.
pub enum OtaAction {
    /// Sends the request; its reply is the next event.
    Request(Command),
    /// Waits half a second, then asks for the status; the reply is the next
    /// event.
    PollStatus,
    /// Ends well, with the message to show.
    Done(String),
    /// Ends badly, with the message to show.
    Failed(String),
    /// Ends with the failed request's own error.
    RequestError,
    /// Ends because the reply to the named request was of another kind.
    Unexpected(String),
}

/// A firmware update of `node`: the image is announced, uploaded chunk by
/// chunk in order, then the logger's status is polled until it reports a
/// result (or stops making progress).
pub struct OtaJob {
    pub node: u8,
    pub is_logger: bool,
    pub image: Vec<u8>,
    pub chunks: usize,
    pub stage: OtaStage,
    pub watch: OtaWatch,
}

/// The report of `done` out of `total`.
pub open spec fn progress(verifying: bool, done: u64, total: u64) -> OtaProgress {
    OtaProgress { verifying, done, total }
}

/// The upload request of chunk `i` of `image`.
pub open spec fn is_upload(a: OtaAction, image: Seq<u8>, i: int) -> bool {
    a matches OtaAction::Request(Command::OtaUpload { offset, data }) && offset == i * UPLOAD_CHUNK && data@
        == hex_text(
        image.subrange(
            i * UPLOAD_CHUNK,
            if (i + 1) * UPLOAD_CHUNK < image.len() { (i + 1) * UPLOAD_CHUNK } else { image.len() as int },
        ),
    )
}

/// The request whose reply a stage waits for.
pub open spec fn awaited_request(stage: OtaStage) -> Seq<char> {
    match stage {
        OtaStage::Announced => "ota_flash"@,
        OtaStage::Uploading(_) => "ota_upload"@,
        _ => "ota_status"@,
    }
}

/// One step of the job `old` on the event `e`: the new job, the progress
/// reports to show and the action to take.
pub open spec fn ota_stepped(old: OtaJob, e: OtaEvent, new: OtaJob, shown: Seq<OtaProgress>, a: OtaAction) -> bool {
    let total = old.image@.len() as u64;
    match (old.stage, e) {
        (OtaStage::Announced, OtaEvent::FlashAccepted) => {
            &&& new.stage == OtaStage::Uploading(0)
            &&& new.watch == old.watch
            &&& shown == seq![progress(false, 0, total)]
            &&& is_upload(a, old.image@, 0)
        },
        (OtaStage::Uploading(i), OtaEvent::Uploaded { committed }) => if i + 1 < old.chunks {
            &&& new.stage == OtaStage::Uploading((i + 1) as usize)
            &&& new.watch == old.watch
            &&& shown == seq![progress(false, committed as u64, total)]
            &&& is_upload(a, old.image@, i + 1)
        } else {
            &&& new.stage == OtaStage::Verifying
            &&& new.watch.last_sent == 0 && new.watch.stalled_polls == 0
            &&& shown == seq![progress(false, committed as u64, total), progress(true, 0, total)]
            &&& a is PollStatus
        },
        (OtaStage::Verifying, OtaEvent::Status(s)) => {
            let stalled = if s.sent == old.watch.last_sent { old.watch.stalled_polls + 1 } else { 0 };
            &&& new.watch.last_sent == s.sent && new.watch.stalled_polls == stalled
            &&& shown == seq![progress(true, s.sent as u64, if s.total == 0 { 1 } else { s.total as u64 })]
            &&& match s.result {
                Some(code) => {
                    let (ok, m) = ota_result_text(code, old.node, old.is_logger);
                    &&& new.stage == OtaStage::Finished
                    &&& if ok { a matches OtaAction::Done(t) && t@ == m } else { a matches OtaAction::Failed(t) && t@ == m }
                },
                None => if stalled >= MAX_STALLED_POLLS {
                    &&& new.stage == OtaStage::Finished
                    &&& a matches OtaAction::Failed(t) && t@ == "no progress from the logger \u{2014} is the CAN bus active?"@
                } else {
                    new.stage == OtaStage::Verifying && a is PollStatus
                },
            }
        },
        (OtaStage::Verifying, OtaEvent::RequestFailed) => {
            &&& new.stage == OtaStage::Finished && new.watch == old.watch && shown.len() == 0
            &&& if old.is_logger {
                a matches OtaAction::Done(t) && t@ == "logger updated, rebooting"@
            } else {
                a is RequestError
            }
        },
        (_, OtaEvent::RequestFailed) => new.stage == OtaStage::Finished && new.watch == old.watch && shown.len() == 0
            && a is RequestError,
        (stage, _) => {
            &&& new.stage == OtaStage::Finished && new.watch == old.watch && shown.len() == 0
            &&& (a matches OtaAction::Unexpected(n) && n@ == awaited_request(stage))
        },
    }
}

impl OtaJob {
    /// A non-empty image, its chunk count, an upload stage within it, and
    /// a verifying stage that has not given up.
    pub open spec fn wf(&self) -> bool {
        &&& self.image@.len() > 0
        &&& self.chunks == (self.image@.len() + UPLOAD_CHUNK - 1) / (UPLOAD_CHUNK as int)
        &&& forall|i: int| 0 <= i < self.chunks ==> #[trigger] (i * UPLOAD_CHUNK) < self.image@.len()
        &&& (self.stage matches OtaStage::Uploading(i) ==> i < self.chunks)
        &&& (self.stage is Verifying ==> self.watch.stalled_polls < MAX_STALLED_POLLS)
    }

    /// Starts an update of `node` with the image read from the chosen file
    /// (none when no file was chosen) and its checksum `crc`: no file
    /// cancels, an empty one is refused, both before any request; else the
    /// image is announced.
    pub fn start(node: u8, image: Option<Vec<u8>>, crc: u32, is_logger: bool) -> (r: (Option<OtaJob>, OtaAction))
        ensures
            match image {
                None => r.0 is None && (r.1 matches OtaAction::Done(m) && m@ == "cancelled"@),
                Some(b) => if b@.len() == 0 {
                    r.0 is None && (r.1 matches OtaAction::Failed(m) && m@ == "firmware file is empty"@)
                } else {
                    &&& r.0 matches Some(j) && j.wf() && j.image@ == b@ && j.node == node && j.is_logger == is_logger
                        && j.stage == OtaStage::Announced
                    &&& r.1 matches OtaAction::Request(Command::OtaFlash { node: n, size, crc: c }) && n == node && size
                        == b@.len() % 0x1_0000_0000 && c == crc
                },
            },
    {
        let image = match image {
            None => return (None, OtaAction::Done("cancelled".to_owned())),
            Some(b) => b,
        };
        if image.len() == 0 {
            return (None, OtaAction::Failed("firmware file is empty".to_owned()));
        }
        let flash = ota_flash_command(node, image.len(), crc);
        let chunks = upload_chunk_count(image.len());
        let job = OtaJob { node, is_logger, image, chunks, stage: OtaStage::Announced, watch: OtaWatch::new() };
        (Some(job), OtaAction::Request(flash))
    }

    /// Takes in the reply to the job's last request.
    pub fn step(&mut self, event: OtaEvent) -> (r: (Vec<OtaProgress>, OtaAction))
        requires
            old(self).wf(),
            !(old(self).stage is Finished),
        ensures
            final(self).wf(),
            final(self).node == old(self).node,
            final(self).is_logger == old(self).is_logger,
            final(self).image@ == old(self).image@,
            final(self).chunks == old(self).chunks,
            ota_stepped(*old(self), event, *final(self), r.0@, r.1),
    {
        let total = self.image.len() as u64;
        let mut shown: Vec<OtaProgress> = Vec::new();
        let stage = self.stage;
        match stage {
            OtaStage::Announced => match event {
                OtaEvent::FlashAccepted => {
                    shown.push(OtaProgress { verifying: false, done: 0, total });
                    assert((0 as int) * UPLOAD_CHUNK < self.image@.len());
                    let a = OtaAction::Request(ota_upload_command(&self.image, 0));
                    assert(shown@ =~= seq![progress(false, 0, total)]);
                    self.stage = OtaStage::Uploading(0);
                    (shown, a)
                },
                OtaEvent::RequestFailed => {
                    self.stage = OtaStage::Finished;
                    (shown, OtaAction::RequestError)
                },
                _ => {
                    self.stage = OtaStage::Finished;
                    (shown, OtaAction::Unexpected("ota_flash".to_owned()))
                },
            },
            OtaStage::Uploading(i) => match event {
                OtaEvent::Uploaded { committed } => {
                    shown.push(OtaProgress { verifying: false, done: committed as u64, total });
                    if i + 1 < self.chunks {
                        assert(((i + 1) as int) * UPLOAD_CHUNK < self.image@.len());
                        let a = OtaAction::Request(ota_upload_command(&self.image, i + 1));
                        assert(shown@ =~= seq![progress(false, committed as u64, total)]);
                        self.stage = OtaStage::Uploading(i + 1);
                        (shown, a)
                    } else {
                        shown.push(OtaProgress { verifying: true, done: 0, total });
                        assert(shown@ =~= seq![progress(false, committed as u64, total), progress(true, 0, total)]);
                        self.watch = OtaWatch::new();
                        self.stage = OtaStage::Verifying;
                        (shown, OtaAction::PollStatus)
                    }
                },
                OtaEvent::RequestFailed => {
                    self.stage = OtaStage::Finished;
                    (shown, OtaAction::RequestError)
                },
                _ => {
                    self.stage = OtaStage::Finished;
                    (shown, OtaAction::Unexpected("ota_upload".to_owned()))
                },
            },
            _ => match event {
                OtaEvent::Status(s) => {
                    let shown_total: u64 = if s.total == 0 { 1 } else { s.total as u64 };
                    shown.push(OtaProgress { verifying: true, done: s.sent as u64, total: shown_total });
                    assert(shown@ =~= seq![progress(true, s.sent as u64, shown_total)]);
                    let verdict = self.watch.observe(&s, self.node, self.is_logger);
                    match verdict {
                        OtaVerdict::Running => (shown, OtaAction::PollStatus),
                        OtaVerdict::Done(m) => {
                            self.stage = OtaStage::Finished;
                            (shown, OtaAction::Done(m))
                        },
                        OtaVerdict::Failed(m) => {
                            self.stage = OtaStage::Finished;
                            (shown, OtaAction::Failed(m))
                        },
                    }
                },
                OtaEvent::RequestFailed => {
                    self.stage = OtaStage::Finished;
                    if self.is_logger {
                        (shown, OtaAction::Done("logger updated, rebooting".to_owned()))
                    } else {
                        (shown, OtaAction::RequestError)
                    }
                },
                _ => {
                    self.stage = OtaStage::Finished;
                    (shown, OtaAction::Unexpected("ota_status".to_owned()))
                },
            },
        }
    }
}

/// A run of an update job: the jobs `js[0]`, `js[1]`, ... that the steps
/// on the events `es` go through, with what each step shows and does.
pub open spec fn ota_run(js: Seq<OtaJob>, es: Seq<OtaEvent>, shown: Seq<Seq<OtaProgress>>, acts: Seq<OtaAction>) -> bool {
    &&& js.len() == es.len() + 1 && shown.len() == es.len() && acts.len() == es.len()
    &&& forall|k: int|
        #![trigger es[k]]
        0 <= k < es.len() ==> {
            &&& !(js[k].stage is Finished)
            &&& ota_stepped(js[k], es[k], js[k + 1], shown[k], acts[k])
            &&& js[k + 1].image@ == js[k].image@ && js[k + 1].chunks == js[k].chunks
            &&& js[k + 1].node == js[k].node && js[k + 1].is_logger == js[k].is_logger
        }
}

/// Where the job stands after `k` replies: announced before any, at the
/// upload of chunk `k - 1` while uploading, and verifying only after all
/// the chunks.
pub open spec fn stage_after(stage: OtaStage, k: int, chunks: int) -> bool {
    match stage {
        OtaStage::Announced => k == 0,
        OtaStage::Uploading(i) => i + 1 == k,
        OtaStage::Verifying => k > chunks,
        OtaStage::Finished => true,
    }
}

proof fn lemma_run_stages(js: Seq<OtaJob>, es: Seq<OtaEvent>, shown: Seq<Seq<OtaProgress>>, acts: Seq<OtaAction>, k: int)
    requires
        ota_run(js, es, shown, acts),
        js[0].wf(),
        js[0].stage == OtaStage::Announced,
        0 <= k <= es.len(),
    ensures
        js[k].image@ == js[0].image@,
        js[k].chunks == js[0].chunks,
        stage_after(js[k].stage, k, js[0].chunks as int),
    decreases k,
{
    if k > 0 {
        lemma_run_stages(js, es, shown, acts, k - 1);
        assert(ota_stepped(js[k - 1], es[k - 1], js[k], shown[k - 1], acts[k - 1]));
    }
}

/// In every run of an update, the reply to the `k`-th request of the job
/// (the announcement first) is answered by the upload of chunk `k`, in
/// order, while chunks remain; the status is polled only after the last
/// chunk, and no other request is made.
pub proof fn lemma_uploads_in_order(js: Seq<OtaJob>, es: Seq<OtaEvent>, shown: Seq<Seq<OtaProgress>>, acts: Seq<OtaAction>)
    requires
        ota_run(js, es, shown, acts),
        js[0].wf(),
        js[0].stage == OtaStage::Announced,
    ensures
        forall|k: int|
            0 <= k < acts.len() ==> (#[trigger] acts[k] is Request ==> k < js[0].chunks && is_upload(
                acts[k],
                js[0].image@,
                k,
            )) && (acts[k] is PollStatus ==> k >= js[0].chunks),
{
    assert forall|k: int| 0 <= k < acts.len() implies (#[trigger] acts[k] is Request ==> k < js[0].chunks && is_upload(
        acts[k],
        js[0].image@,
        k,
    )) && (acts[k] is PollStatus ==> k >= js[0].chunks) by {
        lemma_run_stages(js, es, shown, acts, k);
        assert(ota_stepped(js[k], es[k], js[k + 1], shown[k], acts[k]));
    }
}

/// The kind of a toast.
#[derive(Clone, Copy, PartialEq, Eq, Structural, Debug)]
pub enum ToastKind {
    Success,
    Error,
}

/// The toast after a command: its label on success, else the label, `failed:`
/// and the error.
pub fn command_toast(label: &str, error: Option<&str>) -> (r: (String, ToastKind))
    ensures
        match error {
            None => r.0@ == label@ && r.1 == ToastKind::Success,
            Some(e) => r.0@ == label@ + " failed: "@ + e@ && r.1 == ToastKind::Error,
        },
{
    match error {
        None => (label.to_owned(), ToastKind::Success),
        Some(e) => {
            let mut m = label.to_owned();
            m.append(" failed: ");
            m.append(e);
            (m, ToastKind::Error)
        },
    }
}

/// The logging pause/resume button for the logging state reported by the
/// logger: its label, whether it can be pressed, and the `active` value the
/// `SetLogging` command it sends carries.
pub fn logging_toggle(logging_active: Option<bool>) -> (r: (&'static str, bool, bool))
    ensures
        r.0@ == (if logging_active == Some(false) { "resume"@ } else { "pause"@ }),
        r.1 == (logging_active is Some),
        r.2 == (logging_active != Some(true)),
{
    match logging_active {
        Some(true) => ("pause", true, false),
        Some(false) => ("resume", true, true),
        None => ("pause", false, true),
    }
}

/// The status line of the logs list.
pub enum ListStatus {
    Idle,
    Loading,
    Error(String),
}

/// The text of the logs list status.
pub fn logs_status_text(status: &ListStatus, entries: usize) -> (r: String)
    ensures
        r@ == (match status {
            ListStatus::Idle => if entries == 0 { Seq::empty() } else { decimal_chars(entries as nat) + " log(s)"@ },
            ListStatus::Loading => "loading..."@,
            ListStatus::Error(e) => "error: "@ + e@,
        }),
{
    match status {
        ListStatus::Idle => {
            if entries == 0 {
                String::new()
            } else {
                let mut m = decimal_text(entries as u64);
                m.append(" log(s)");
                m
            }
        },
        ListStatus::Loading => "loading...".to_owned(),
        ListStatus::Error(e) => {
            let mut m = "error: ".to_owned();
            m.append(e.as_str());
            m
        },
    }
}


/// How many leading nodes of `s` have an id of at most `key`: where a node
/// with id `key` goes after the ones already there.
pub open spec fn node_slot(s: Seq<CanNode>, key: u8) -> nat
    decreases s.len(),
{
    if s.len() > 0 && s[0].node <= key { 1 + node_slot(s.skip(1), key) } else { 0 }
}

/// The nodes ordered by id; nodes with the same id keep their order (a
/// stable sort by id).
pub open spec fn nodes_by_id(s: Seq<CanNode>) -> Seq<CanNode>
    decreases s.len(),
{
    if s.len() == 0 {
        s
    } else {
        let sorted = nodes_by_id(s.drop_last());
        sorted.insert(node_slot(sorted, s.last().node) as int, s.last())
    }
}

/// The ids never decrease along `s`.
pub open spec fn ids_ascending(s: Seq<CanNode>) -> bool {
    forall|i: int, j: int| 0 <= i < j < s.len() ==> #[trigger] s[i].node <= #[trigger] s[j].node
}

proof fn lemma_node_slot(s: Seq<CanNode>, key: u8)
    ensures
        node_slot(s, key) <= s.len(),
        forall|j: int| 0 <= j < node_slot(s, key) ==> #[trigger] s[j].node <= key,
        node_slot(s, key) < s.len() ==> s[node_slot(s, key) as int].node > key,
    decreases s.len(),
{
    if s.len() > 0 && s[0].node <= key {
        lemma_node_slot(s.skip(1), key);
        assert forall|j: int| 0 <= j < node_slot(s, key) implies #[trigger] s[j].node <= key by {
            if j > 0 {
                assert(s[j] == s.skip(1)[j - 1]);
            }
        }
    }
}

/// Sorting by id gives the same nodes, ordered by id.
pub proof fn lemma_nodes_by_id(s: Seq<CanNode>)
    ensures
        ids_ascending(nodes_by_id(s)),
        nodes_by_id(s).to_multiset() == s.to_multiset(),
    decreases s.len(),
{
    broadcast use vstd::seq_lib::lemma_multiset_commutative, vstd::multiset::group_multiset_axioms, vstd::seq_lib::group_to_multiset_ensures;

    if s.len() > 0 {
        let sorted = nodes_by_id(s.drop_last());
        lemma_nodes_by_id(s.drop_last());
        let x = s.last();
        let p = node_slot(sorted, x.node) as int;
        lemma_node_slot(sorted, x.node);
        let r = sorted.insert(p, x);
        assert(r =~= sorted.take(p).push(x) + sorted.skip(p));
        assert forall|i: int, j: int| 0 <= i < j < r.len() implies #[trigger] r[i].node <= #[trigger] r[j].node by {
            if j < p {
                assert(r[i] == sorted[i] && r[j] == sorted[j]);
            } else if j == p {
                assert(r[i] == sorted[i]);
            } else if i < p {
                assert(r[i] == sorted[i] && r[j] == sorted[j - 1]);
                assert(sorted[i].node <= x.node);
                assert(sorted[p].node > x.node);
                if j - 1 > p {
                    assert(sorted[p].node <= sorted[j - 1].node);
                }
            } else if i == p {
                assert(r[j] == sorted[j - 1]);
                assert(sorted[p].node > x.node);
                if j - 1 > p {
                    assert(sorted[p].node <= sorted[j - 1].node);
                }
            } else {
                assert(r[i] == sorted[i - 1] && r[j] == sorted[j - 1]);
            }
        }
        assert(sorted =~= sorted.take(p) + sorted.skip(p));
        assert(s =~= s.drop_last().push(x));
        let a = sorted.take(p);
        let b = sorted.skip(p);
        assert(r.to_multiset() =~= a.push(x).to_multiset().add(b.to_multiset()));
        assert(a.push(x).to_multiset() =~= a.to_multiset().insert(x));
        assert(sorted.to_multiset() =~= a.to_multiset().add(b.to_multiset()));
        assert(s.to_multiset() =~= s.drop_last().to_multiset().insert(x));
        assert(r.to_multiset() =~= s.to_multiset());
    }
}

proof fn lemma_filter_none<A>(b: Seq<A>, pred: spec_fn(A) -> bool)
    requires
        forall|j: int| 0 <= j < b.len() ==> !pred(#[trigger] b[j]),
    ensures
        b.filter(pred).len() == 0,
    decreases b.len(),
{
    reveal(Seq::filter);
    if b.len() > 0 {
        assert forall|j: int| 0 <= j < b.drop_last().len() implies !pred(#[trigger] b.drop_last()[j]) by {
            assert(b.drop_last()[j] == b[j]);
        }
        lemma_filter_none(b.drop_last(), pred);
    }
}

/// Inserting `x` at `p` adds it last to the elements kept by `pred` when
/// none from `p` on is kept with it.
proof fn lemma_insert_filtered<A>(sorted: Seq<A>, p: int, x: A, pred: spec_fn(A) -> bool)
    requires
        0 <= p <= sorted.len(),
        pred(x) ==> forall|j: int| p <= j < sorted.len() ==> !pred(#[trigger] sorted[j]),
    ensures
        sorted.insert(p, x).filter(pred) == if pred(x) {
            sorted.filter(pred).push(x)
        } else {
            sorted.filter(pred)
        },
{
    let a = sorted.take(p);
    let b = sorted.skip(p);
    assert(sorted =~= a + b);
    assert(sorted.insert(p, x) =~= a.push(x) + b);
    Seq::filter_distributes_over_add(a, b, pred);
    Seq::filter_distributes_over_add(a.push(x), b, pred);
    a.lemma_filter_push(x, pred);
    if pred(x) {
        assert forall|j: int| 0 <= j < b.len() implies !pred(#[trigger] b[j]) by {
            assert(b[j] == sorted[p + j]);
        }
        lemma_filter_none(b, pred);
        assert(a.filter(pred).push(x) + b.filter(pred) =~= a.filter(pred).push(x));
        assert(a.filter(pred) + b.filter(pred) =~= a.filter(pred));
    }
}

/// The nodes of `s` with the id `key`, in their order in `s`.
pub open spec fn with_id(s: Seq<CanNode>, key: u8) -> Seq<CanNode> {
    s.filter(|n: CanNode| n.node == key)
}

/// Sorting by id is stable: the nodes that share an id keep their order.
pub proof fn lemma_nodes_by_id_stable(s: Seq<CanNode>, key: u8)
    ensures
        with_id(nodes_by_id(s), key) == with_id(s, key),
    decreases s.len(),
{
    let pred = |n: CanNode| n.node == key;
    if s.len() > 0 {
        let sorted = nodes_by_id(s.drop_last());
        lemma_nodes_by_id_stable(s.drop_last(), key);
        lemma_nodes_by_id(s.drop_last());
        let x = s.last();
        let p = node_slot(sorted, x.node) as int;
        lemma_node_slot(sorted, x.node);
        assert forall|j: int| p <= j < sorted.len() implies #[trigger] sorted[j].node > x.node by {
            if j > p {
                assert(sorted[p].node <= sorted[j].node);
            }
        }
        lemma_insert_filtered(sorted, p, x, pred);
        assert(s =~= s.drop_last().push(x));
        s.drop_last().lemma_filter_push(x, pred);
    }
}

/// The CAN nodes ordered by id, as the devices list shows them (stable).
pub fn sort_nodes(nodes: Vec<CanNode>) -> (r: Vec<CanNode>)
    ensures
        r@ == nodes_by_id(nodes@),
{
    let mut out: Vec<CanNode> = Vec::new();
    let mut i: usize = 0;
    assert(nodes@.take(0) =~= Seq::<CanNode>::empty());
    while i < nodes.len()
        invariant
            i <= nodes@.len(),
            out@ == nodes_by_id(nodes@.take(i as int)),
        decreases nodes@.len() - i,
    {
        let x = nodes[i];
        let mut p: usize = 0;
        assert(out@.skip(0) =~= out@);
        while p < out.len() && out[p].node <= x.node
            invariant
                p <= out@.len(),
                node_slot(out@, x.node) == p + node_slot(out@.skip(p as int), x.node),
            decreases out@.len() - p,
        {
            assert(out@.skip(p as int).skip(1) =~= out@.skip(p + 1));
            p += 1;
        }
        proof {
            assert(nodes@.take(i + 1).drop_last() =~= nodes@.take(i as int));
            assert(nodes@.take(i + 1).last() == x);
        }
        out.insert(p, x);
        i += 1;
    }
    assert(nodes@.take(nodes@.len() as int) =~= nodes@);
    out
}


/// How many leading entries of `s` have a name no smaller than `key`:
/// where an entry named `key` goes after the ones already there.
pub open spec fn entry_slot(s: Seq<LogEntry>, key: Seq<char>) -> nat
    decreases s.len(),
{
    if s.len() > 0 && !chars_lt(s[0].name@, key) { 1 + entry_slot(s.skip(1), key) } else { 0 }
}

/// The log entries ordered by name, largest first; entries with the same
/// name keep their order (a stable sort). Names are zero-padded numbers,
/// so this lists the newest log first.
pub open spec fn entries_newest_first(s: Seq<LogEntry>) -> Seq<LogEntry>
    decreases s.len(),
{
    if s.len() == 0 {
        s
    } else {
        let sorted = entries_newest_first(s.drop_last());
        sorted.insert(entry_slot(sorted, s.last().name@) as int, s.last())
    }
}

/// No name along `s` is smaller than a later one.
pub open spec fn names_descending(s: Seq<LogEntry>) -> bool {
    forall|i: int, j: int| 0 <= i < j < s.len() ==> !chars_lt(#[trigger] s[i].name@, #[trigger] s[j].name@)
}

proof fn lemma_entry_slot(s: Seq<LogEntry>, key: Seq<char>)
    ensures
        entry_slot(s, key) <= s.len(),
        forall|j: int| 0 <= j < entry_slot(s, key) ==> !chars_lt(#[trigger] s[j].name@, key),
        entry_slot(s, key) < s.len() ==> chars_lt(s[entry_slot(s, key) as int].name@, key),
    decreases s.len(),
{
    if s.len() > 0 && !chars_lt(s[0].name@, key) {
        lemma_entry_slot(s.skip(1), key);
        assert forall|j: int| 0 <= j < entry_slot(s, key) implies !chars_lt(#[trigger] s[j].name@, key) by {
            if j > 0 {
                assert(s[j] == s.skip(1)[j - 1]);
            }
        }
    }
}

/// Sorting newest first gives the same entries, by descending name.
pub proof fn lemma_entries_newest_first(s: Seq<LogEntry>)
    ensures
        names_descending(entries_newest_first(s)),
        entries_newest_first(s).to_multiset() == s.to_multiset(),
    decreases s.len(),
{
    broadcast use vstd::seq_lib::lemma_multiset_commutative, vstd::multiset::group_multiset_axioms, vstd::seq_lib::group_to_multiset_ensures;

    if s.len() > 0 {
        let sorted = entries_newest_first(s.drop_last());
        lemma_entries_newest_first(s.drop_last());
        let x = s.last();
        let p = entry_slot(sorted, x.name@) as int;
        lemma_entry_slot(sorted, x.name@);
        let r = sorted.insert(p, x);
        assert(r =~= sorted.take(p).push(x) + sorted.skip(p));
        assert forall|i: int, j: int| 0 <= i < j < r.len() implies !chars_lt(#[trigger] r[i].name@, #[trigger] r[j].name@) by {
            if j < p {
                assert(r[i] == sorted[i] && r[j] == sorted[j]);
            } else if j == p {
                assert(r[i] == sorted[i]);
            } else {
                assert(r[j] == sorted[j - 1]);
                let sp = sorted[p].name@;
                let sj = sorted[j - 1].name@;
                // sj <= sp < x
                assert(chars_lt(sp, x.name@));
                assert(chars_lt(sj, x.name@)) by {
                    if j - 1 > p {
                        assert(!chars_lt(sp, sj));
                        lemma_chars_lt_order(sp, sj);
                        if sj != sp {
                            lemma_chars_lt_transitive(sj, sp, x.name@);
                        }
                    }
                }
                lemma_chars_lt_order(sj, x.name@);
                if i < p {
                    assert(r[i] == sorted[i]);
                    assert(!chars_lt(sorted[i].name@, x.name@));
                    lemma_chars_lt_order(sorted[i].name@, x.name@);
                    if chars_lt(sorted[i].name@, sj) {
                        if sorted[i].name@ != x.name@ {
                            lemma_chars_lt_order(x.name@, sorted[i].name@);
                            lemma_chars_lt_transitive(sj, x.name@, sorted[i].name@);
                            lemma_chars_lt_order(sj, sorted[i].name@);
                        }
                    }
                } else if i == p {
                } else {
                    assert(r[i] == sorted[i - 1]);
                }
            }
        }
        let a = sorted.take(p);
        let b = sorted.skip(p);
        assert(r.to_multiset() =~= a.push(x).to_multiset().add(b.to_multiset()));
        assert(a.push(x).to_multiset() =~= a.to_multiset().insert(x));
        assert(sorted =~= a + b);
        assert(sorted.to_multiset() =~= a.to_multiset().add(b.to_multiset()));
        assert(s =~= s.drop_last().push(x));
        assert(s.to_multiset() =~= s.drop_last().to_multiset().insert(x));
        assert(r.to_multiset() =~= s.to_multiset());
    }
}

/// Whether an entry is named `name`.
pub open spec fn name_is(name: Seq<char>) -> spec_fn(LogEntry) -> bool {
    |e: LogEntry| e.name@ == name
}

/// The entries of `s` named `name`, in their order in `s`.
pub open spec fn named(s: Seq<LogEntry>, name: Seq<char>) -> Seq<LogEntry> {
    s.filter(name_is(name))
}

/// Sorting newest first is stable: entries of the same name keep their
/// order.
pub proof fn lemma_entries_newest_first_stable(s: Seq<LogEntry>, name: Seq<char>)
    ensures
        named(entries_newest_first(s), name) == named(s, name),
    decreases s.len(),
{
    let pred = name_is(name);
    if s.len() > 0 {
        let sorted = entries_newest_first(s.drop_last());
        lemma_entries_newest_first_stable(s.drop_last(), name);
        lemma_entries_newest_first(s.drop_last());
        let x = s.last();
        let p = entry_slot(sorted, x.name@) as int;
        lemma_entry_slot(sorted, x.name@);
        assert forall|j: int| p <= j < sorted.len() implies #[trigger] sorted[j].name@ != x.name@ by {
            lemma_chars_lt_order(x.name@, x.name@);
            if j > p {
                assert(!chars_lt(sorted[p].name@, sorted[j].name@));
            }
        }
        lemma_insert_filtered(sorted, p, x, pred);
        assert(s =~= s.drop_last().push(x));
        s.drop_last().lemma_filter_push(x, pred);
    }
}

/// The log entries newest first, as the logs list shows them (stable).
pub fn sort_entries(entries: Vec<LogEntry>) -> (r: Vec<LogEntry>)
    ensures
        r@ == entries_newest_first(entries@),
{
    let mut out: Vec<LogEntry> = Vec::new();
    let mut rest = entries;
    let ghost all = rest@;
    let n = rest.len();
    let mut i: usize = 0;
    assert(all.take(0) =~= Seq::<LogEntry>::empty());
    assert(all.skip(0) =~= all);
    while i < n
        invariant
            n == all.len(),
            i <= n,
            rest@ == all.skip(i as int),
            out@ == entries_newest_first(all.take(i as int)),
        decreases n - i,
    {
        let x = rest.remove(0);
        assert(x == all[i as int]);
        assert(rest@ =~= all.skip(i + 1));
        let mut p: usize = 0;
        assert(out@.skip(0) =~= out@);
        while p < out.len() && !str_lt(out[p].name.as_str(), x.name.as_str())
            invariant
                p <= out@.len(),
                entry_slot(out@, x.name@) == p + entry_slot(out@.skip(p as int), x.name@),
            decreases out@.len() - p,
        {
            assert(out@.skip(p as int).skip(1) =~= out@.skip(p + 1));
            p += 1;
        }
        proof {
            assert(all.take(i + 1).drop_last() =~= all.take(i as int));
            assert(all.take(i + 1).last() == x);
        }
        out.insert(p, x);
        i += 1;
    }
    assert(all.take(n as int) =~= all);
    out
}


/// `name` without any number of trailing `.bin` (`str::trim_end_matches`).
pub open spec fn strip_bin(name: Seq<char>) -> Seq<char>
    decreases name.len(),
{
    if name.len() >= 4 && name.skip(name.len() - 4) == ".bin"@ { strip_bin(name.take(name.len() - 4)) } else { name }
}

/// The CSV file name suggested for a downloaded log: its name without the
/// trailing `.bin`s, then `.csv`.
#[verifier::spinoff_prover]
pub fn csv_file_name(name: &str) -> (r: String)
    ensures
        r@ == strip_bin(name@) + ".csv"@,
{
    proof {
        reveal_strlit(".bin");
    }
    let cs = crate::text::chars_of(name);
    let mut end = cs.len();
    assert(name@.take(end as int) =~= name@);
    while end >= 4 && cs[end - 4] == '.' && cs[end - 3] == 'b' && cs[end - 2] == 'i' && cs[end - 1] == 'n'
        invariant
            cs@ == name@,
            end <= cs@.len(),
            strip_bin(name@) == strip_bin(name@.take(end as int)),
        decreases end,
    {
        let ghost t = name@.take(end as int);
        proof {
            reveal_strlit(".bin");
        }
        assert(t.skip(t.len() - 4) =~= ".bin"@);
        assert(t.take(t.len() - 4) =~= name@.take(end - 4));
        end -= 4;
    }
    proof {
        reveal_strlit(".bin");
        let t = name@.take(end as int);
        if t.len() >= 4 && t.skip(t.len() - 4) == ".bin"@ {
            assert(t.skip(t.len() - 4)[0] == t[end - 4]);
            assert(t.skip(t.len() - 4)[1] == t[end - 3]);
            assert(t.skip(t.len() - 4)[2] == t[end - 2]);
            assert(t.skip(t.len() - 4)[3] == t[end - 1]);
        }
    }
    let mut out = String::new();
    let mut k: usize = 0;
    while k < end
        invariant
            cs@ == name@,
            k <= end <= cs@.len(),
            out@ == name@.take(k as int),
        decreases end - k,
    {
        push_char(&mut out, cs[k]);
        k += 1;
        assert(out@ =~= name@.take(k as int));
    }
    assert(name@.take(end as int).take(end as int) =~= name@.take(end as int));
    out.append(".csv");
    out
}


/// A message shown for a while in the corner of the window.
pub struct Toast {
    pub message: String,
    pub kind: ToastKind,
}

/// The toasts of `s` other than those with id `id`, in order.
pub open spec fn without_toast(s: Seq<(u64, Toast)>, id: u64) -> Seq<(u64, Toast)>
    decreases s.len(),
{
    if s.len() == 0 {
        s
    } else {
        let rest = without_toast(s.drop_last(), id);
        if s.last().0 == id { rest } else { rest.push(s.last()) }
    }
}

proof fn lemma_without_bounded(s: Seq<(u64, Toast)>, id: u64, bound: u64)
    requires
        forall|i: int| 0 <= i < s.len() ==> (#[trigger] s[i]).0 < bound,
    ensures
        forall|j: int| 0 <= j < without_toast(s, id).len() ==> (#[trigger] without_toast(s, id)[j]).0 < bound,
    decreases s.len(),
{
    if s.len() > 0 {
        let t = s.drop_last();
        assert forall|i: int| 0 <= i < t.len() implies (#[trigger] t[i]).0 < bound by {
            assert(t[i] == s[i]);
        }
        lemma_without_bounded(t, id, bound);
        assert(s.last() == s[s.len() - 1]);
        let rest = without_toast(t, id);
        let w = without_toast(s, id);
        assert forall|j: int| 0 <= j < w.len() implies (#[trigger] w[j]).0 < bound by {
            if j < rest.len() {
                assert(w[j] == rest[j]);
            } else {
                assert(w[j] == s.last());
            }
        }
    }
}

proof fn lemma_without_absent(s: Seq<(u64, Toast)>, id: u64)
    requires
        forall|i: int| 0 <= i < s.len() ==> (#[trigger] s[i]).0 != id,
    ensures
        without_toast(s, id) == s,
    decreases s.len(),
{
    if s.len() > 0 {
        let t = s.drop_last();
        assert forall|i: int| 0 <= i < t.len() implies (#[trigger] t[i]).0 != id by {
            assert(t[i] == s[i]);
        }
        lemma_without_absent(t, id);
        assert(s.last() == s[s.len() - 1]);
        assert(t.push(s.last()) =~= s);
    }
}

/// Every toast of `s` has an id below `next`.
pub open spec fn ids_below(s: Seq<(u64, Toast)>, next: u64) -> bool {
    forall|i: int| 0 <= i < s.len() ==> (#[trigger] s[i]).0 < next
}

/// The toasts on screen, oldest first, each with the id it was given; ids
/// count up from 0.
pub struct Toasts {
    entries: Vec<(u64, Toast)>,
    next_id: u64,
}

impl Toasts {
    pub closed spec fn shown(&self) -> Seq<(u64, Toast)> {
        self.entries@
    }

    pub closed spec fn next(&self) -> u64 {
        self.next_id
    }

    #[verifier::type_invariant]
    closed spec fn inv(&self) -> bool {
        ids_below(self.entries@, self.next_id)
    }

    /// No toast yet.
    pub fn new() -> (r: Toasts)
        ensures
            r.shown() == Seq::<(u64, Toast)>::empty(),
            r.next() == 0,
    {
        Toasts { entries: Vec::new(), next_id: 0 }
    }

    /// The id the next toast gets.
    pub fn next_id(&self) -> (r: u64)
        ensures
            r == self.next(),
    {
        self.next_id
    }

    /// The toasts shown, oldest first; every id is below the next one.
    pub fn entries(&self) -> (r: &Vec<(u64, Toast)>)
        ensures
            r@ == self.shown(),
            ids_below(self.shown(), self.next()),
    {
        proof {
            use_type_invariant(self);
        }
        &self.entries
    }

    /// Shows a toast; returns its id, the next one, which then counts up.
    pub fn push(&mut self, message: String, kind: ToastKind) -> (id: u64)
        requires
            old(self).next() < u64::MAX,
        ensures
            id == old(self).next(),
            final(self).next() == old(self).next() + 1,
            final(self).shown() == old(self).shown().push((id, Toast { message, kind })),
            ids_below(old(self).shown(), old(self).next()),
    {
        proof {
            use_type_invariant(&*self);
        }
        let id = self.next_id;
        let mut entries: Vec<(u64, Toast)> = Vec::new();
        std::mem::swap(&mut entries, &mut self.entries);
        entries.push((id, Toast { message, kind }));
        self.next_id = id + 1;
        self.entries = entries;
        id
    }

    /// The toast `id` has lived its time: it leaves, the others stay in
    /// order.
    pub fn expire(&mut self, id: u64)
        ensures
            final(self).next() == old(self).next(),
            final(self).shown() == without_toast(old(self).shown(), id),
    {
        proof {
            use_type_invariant(&*self);
        }
        let ghost before = self.entries@;
        let mut src: Vec<(u64, Toast)> = Vec::new();
        std::mem::swap(&mut src, &mut self.entries);
        let mut out: Vec<(u64, Toast)> = Vec::new();
        while src.len() > 0
            invariant
                without_toast(before, id) == without_toast(src@, id) + out@,
            decreases src@.len(),
        {
            let ghost s = src@;
            let e = src.pop().unwrap();
            assert(src@ == s.drop_last() && e == s.last());
            if e.0 != id {
                out.insert(0, e);
                assert(without_toast(s, id) + out@.skip(1) =~= without_toast(src@, id) + out@);
            }
        }
        assert(without_toast(src@, id) =~= Seq::<(u64, Toast)>::empty());
        assert(out@ =~= without_toast(before, id));
        proof {
            lemma_without_bounded(before, id, self.next_id);
        }
        self.entries = out;
    }
}

/// A toast expiring right after it was pushed leaves the toasts as they
/// were before the push: pushing `(next, toast)` onto toasts whose ids are
/// all below `next`, then expiring `next`, gives back the toasts.
pub proof fn lemma_expire_undoes_push(shown: Seq<(u64, Toast)>, next: u64, toast: Toast)
    requires
        ids_below(shown, next),
    ensures
        without_toast(shown.push((next, toast)), next) == shown,
{
    let s = shown.push((next, toast));
    assert(s.drop_last() =~= shown);
    assert forall|i: int| 0 <= i < shown.len() implies (#[trigger] shown[i]).0 != next by {
        assert(shown[i].0 < next);
    }
    lemma_without_absent(shown, next);
}

/// What to do with the refresh loop of a tab's list.
#[derive(Clone, Copy, PartialEq, Eq, Structural, Debug)]
pub enum PollChange {
    /// The tab is not shown: stop the loop.
    Stop,
    /// Shown, and the loop runs: leave it.
    Keep,
    /// Shown, and no loop runs: start one.
    Start,
}

/// The change for a tab shown or not, with a loop running or not.
pub open spec fn change_for(tab_shown: bool, running: bool) -> PollChange {
    if !tab_shown { PollChange::Stop } else if running { PollChange::Keep } else { PollChange::Start }
}

/// Whether a loop runs after the change.
pub open spec fn running_after(change: PollChange, running: bool) -> bool {
    match change {
        PollChange::Stop => false,
        PollChange::Keep => running,
        PollChange::Start => true,
    }
}

/// A list refreshes while its tab is shown, with one loop at a time.
pub fn poll_change(tab_shown: bool, running: bool) -> (r: PollChange)
    ensures
        r == change_for(tab_shown, running),
{
    if !tab_shown {
        PollChange::Stop
    } else if running {
        PollChange::Keep
    } else {
        PollChange::Start
    }
}

/// After the change a refresh loop runs exactly while the tab is shown:
/// leaving the tab stops it, a loop that runs on a shown tab is kept (not
/// restarted), and a shown tab without one gets one.
pub proof fn lemma_refresh_runs_while_shown(tab_shown: bool, running: bool)
    ensures
        running_after(change_for(tab_shown, running), running) == tab_shown,
        tab_shown && running ==> change_for(tab_shown, running) == PollChange::Keep,
        !tab_shown ==> change_for(tab_shown, running) == PollChange::Stop,
{
}

/// The toast after parsing one log file.
pub fn parsed_file_message(rows: usize, src: &str, csv: &str, ld: &str) -> (r: String)
    ensures
        r@ == "parsed "@ + decimal_chars(rows as nat) + " rows from "@ + src@ + ", saved "@ + csv@ + " and "@ + ld@,
{
    let mut m = "parsed ".to_owned();
    m.append(decimal_text(rows as u64).as_str());
    m.append(" rows from ");
    m.append(src);
    m.append(", saved ");
    m.append(csv);
    m.append(" and ");
    m.append(ld);
    m
}

/// The window title: `● ` and the logger's port while connected, else the
/// application's name.
pub fn window_title(port: Option<&str>) -> (r: String)
    ensures
        r@ == (match port {
            Some(p) => "\u{25cf} "@ + p@,
            None => "Logger Client"@,
        }),
{
    match port {
        Some(p) => {
            let mut t = "\u{25cf} ".to_owned();
            t.append(p);
            t
        },
        None => "Logger Client".to_owned(),
    }
}

/// The result of downloading and parsing a log from the logger.
pub fn parsed_download_message(rows: usize, dest: &str) -> (r: String)
    ensures
        r@ == "parsed "@ + decimal_chars(rows as nat) + " rows, saved to "@ + dest@,
{
    let mut m = "parsed ".to_owned();
    m.append(decimal_text(rows as u64).as_str());
    m.append(" rows, saved to ");
    m.append(dest);
    m
}

/// `parts` with `sep` between neighbours.
pub open spec fn join_with(parts: Seq<Seq<char>>, sep: Seq<char>) -> Seq<char>
    decreases parts.len(),
{
    if parts.len() == 0 {
        Seq::empty()
    } else if parts.len() == 1 {
        parts[0]
    } else {
        join_with(parts.drop_last(), sep) + sep + parts.last()
    }
}

/// The character sequences of some strings.
pub open spec fn texts_of(v: Seq<String>) -> Seq<Seq<char>> {
    v.map_values(|s: String| s@)
}

/// The toast after parsing the `.bin` files of a folder: how many of
/// `total` files were parsed, and the failures (each `file: error`).
pub open spec fn folder_summary(dir: Seq<char>, total: nat, failures: Seq<Seq<char>>) -> Seq<char> {
    if total == 0 {
        "no .bin log files found in "@ + dir
    } else if failures.len() == 0 {
        "parsed "@ + decimal_chars(total) + " log file(s) in "@ + dir
    } else {
        "parsed "@ + decimal_chars((total - failures.len()) as nat) + "/"@ + decimal_chars(total) + " log file(s) in "@
            + dir + " ("@ + decimal_chars(failures.len()) + " failed: "@ + join_with(failures, "; "@) + ")"@
    }
}

/// The toast after parsing a folder of `total` log files of which those in
/// `failures` failed.
pub fn parsed_folder_message(dir: &str, total: usize, failures: &Vec<String>) -> (r: String)
    requires
        failures@.len() <= total,
    ensures
        r@ == folder_summary(dir@, total as nat, texts_of(failures@)),
{
    if total == 0 {
        let mut m = "no .bin log files found in ".to_owned();
        m.append(dir);
        return m;
    }
    let k = failures.len();
    let mut m = "parsed ".to_owned();
    if k == 0 {
        m.append(decimal_text(total as u64).as_str());
        m.append(" log file(s) in ");
        m.append(dir);
        return m;
    }
    m.append(decimal_text((total - k) as u64).as_str());
    m.append("/");
    m.append(decimal_text(total as u64).as_str());
    m.append(" log file(s) in ");
    m.append(dir);
    m.append(" (");
    m.append(decimal_text(k as u64).as_str());
    m.append(" failed: ");
    let ghost prefix = m@;
    let mut i: usize = 0;
    while i < k
        invariant
            i <= k,
            k == failures@.len(),
            k > 0,
            m@ == prefix + join_with(texts_of(failures@).take(i as int), "; "@),
        decreases k - i,
    {
        let ghost before = texts_of(failures@).take(i as int);
        let ghost after = texts_of(failures@).take(i + 1);
        assert(after.drop_last() =~= before);
        assert(after.last() == failures@[i as int]@);
        if i > 0 {
            m.append("; ");
        } else {
            assert(before =~= Seq::<Seq<char>>::empty());
        }
        m.append(failures[i].as_str());
        assert(m@ =~= prefix + join_with(after, "; "@));
        i += 1;
    }
    assert(texts_of(failures@).take(k as int) =~= texts_of(failures@));
    m.append(")");
    m
}


/// The label of a node's firmware update button: `updating...` while its
/// update runs, else `update this logger` for the logger itself and
/// `update fw` for another node.
pub fn ota_button_label(updating: bool, is_self: bool) -> (r: &'static str)
    ensures
        r@ == (if updating { "updating..."@ } else if is_self { "update this logger"@ } else { "update fw"@ }),
{
    if updating {
        "updating..."
    } else if is_self {
        "update this logger"
    } else {
        "update fw"
    }
}

/// The type shown for a node: the device type's name, followed for an
/// unknown type by its byte, as `name (0xNN)`.
pub fn device_type_label(name: &str, known: bool, type_byte: u8) -> (r: String)
    ensures
        r@ == (if known { name@ } else { name@ + " ("@ + byte_label(type_byte) + ")"@ }),
{
    let mut m = name.to_owned();
    if !known {
        m.append(" (");
        m.append(node_label(type_byte).as_str());
        m.append(")");
    }
    m
}

} // verus!
