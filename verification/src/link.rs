//! The decisions of the device poll loop: when to look for the logger's
//! port, when to probe it, when the heartbeat is due, and what the published
//! link state holds after each answer.

use vstd::prelude::*;
use crate::device::DeviceStatusFlags;
use crate::text::text_of;

verus! {

/// Pause after a scan that found no port.
pub const SCAN_PAUSE_MS: u64 = 3000;

/// Pause after a candidate port that did not answer the ping.
pub const PROBE_PAUSE_MS: u64 = 1000;

/// Interval of the heartbeat requests.
pub const HEARTBEAT_MS: u64 = 1000;

/// Pause between two turns of the connected loop.
pub const TICK_MS: u64 = 50;

/// What the poll loop publishes of the logger, its float telemetry aside.
#[derive(Clone, Debug)]
pub struct LinkState {
    pub port: Option<String>,
    pub firmware_version: Option<String>,
    pub uptime: Option<u64>,
    pub last_ping: Option<bool>,
    pub logging_active: Option<bool>,
    pub current_log: Option<String>,
    pub status: Option<DeviceStatusFlags>,
}

/// The link state with its texts as character sequences.
pub struct LinkView {
    pub port: Option<Seq<char>>,
    pub firmware_version: Option<Seq<char>>,
    pub uptime: Option<u64>,
    pub last_ping: Option<bool>,
    pub logging_active: Option<bool>,
    pub current_log: Option<Seq<char>>,
    pub status: Option<DeviceStatusFlags>,
}

impl View for LinkState {
    type V = LinkView;

    open spec fn view(&self) -> LinkView {
        LinkView {
            port: text_of(self.port),
            firmware_version: text_of(self.firmware_version),
            uptime: self.uptime,
            last_ping: self.last_ping,
            logging_active: self.logging_active,
            current_log: text_of(self.current_log),
            status: self.status,
        }
    }
}

/// Nothing known: no port, no reply.
pub open spec fn empty_link() -> LinkView {
    LinkView {
        port: None,
        firmware_version: None,
        uptime: None,
        last_ping: None,
        logging_active: None,
        current_log: None,
        status: None,
    }
}

/// Just connected to `port`, with the firmware version it reported.
pub open spec fn fresh_link(port: Seq<char>, version: Option<Seq<char>>) -> LinkView {
    LinkView { port: Some(port), firmware_version: version, ..empty_link() }
}

/// What the poll loop learnt, handed to `Poller::step`.
pub enum LinkEvent {
    /// The port scan found the logger's port, or none.
    Scanned(Option<String>),
    /// The candidate `port` was opened and answered the ping, or not.
    Probed { port: String, answered: bool },
    /// Connected to `port`: its firmware version (none when that request
    /// failed).
    Versioned { port: String, version: Option<String> },
    /// A turn of the connected loop, this long after the last heartbeat.
    Tick { since_heartbeat_ms: u64 },
    /// The heartbeat: the uptime the logger reported, its status flags and
    /// its logging state (`(active, current file)`), each none when that
    /// request failed.
    Heartbeat { uptime: u64, status: Option<DeviceStatusFlags>, log_status: Option<(bool, String)> },
    /// The heartbeat's uptime request failed: the link is dropped.
    Lost,
}

/// The outside work the poll loop does next.
#[derive(Debug)]
pub enum LinkAction {
    /// Wait this long, then look for the logger's port.
    Scan { after_ms: u64 },
    /// Open the port and ping it.
    Probe(String),
    /// Ask the logger on the port for its firmware version.
    AskVersion(String),
    /// Connected: take in the interface's requests, then tick.
    Serve,
    /// Send the heartbeat requests now.
    Beat,
    /// Wait this long, then serve again.
    Wait { ms: u64 },
}

/// The link state after an event (see `Poller::step`).
pub open spec fn next_link(v: LinkView, e: LinkEvent) -> LinkView {
    match e {
        LinkEvent::Scanned(None) => if v.port is Some { empty_link() } else { v },
        LinkEvent::Scanned(Some(_)) => v,
        LinkEvent::Probed { .. } => v,
        LinkEvent::Versioned { port, version } => fresh_link(port@, text_of(version)),
        LinkEvent::Tick { .. } => v,
        LinkEvent::Heartbeat { uptime, status, log_status } => LinkView {
            uptime: Some(uptime),
            status: status,
            logging_active: match log_status { Some((a, _)) => Some(a), None => None },
            current_log: match log_status { Some((_, c)) => Some(c@), None => None },
            ..v
        },
        LinkEvent::Lost => empty_link(),
    }
}

/// The outside work after an event, with its port as characters.
pub enum ActionView {
    Scan { after_ms: u64 },
    Probe(Seq<char>),
    AskVersion(Seq<char>),
    Serve,
    Beat,
    Wait { ms: u64 },
}

impl LinkAction {
    pub open spec fn view_of(&self) -> ActionView {
        match self {
            LinkAction::Scan { after_ms } => ActionView::Scan { after_ms: *after_ms },
            LinkAction::Probe(p) => ActionView::Probe(p@),
            LinkAction::AskVersion(p) => ActionView::AskVersion(p@),
            LinkAction::Serve => ActionView::Serve,
            LinkAction::Beat => ActionView::Beat,
            LinkAction::Wait { ms } => ActionView::Wait { ms: *ms },
        }
    }
}

/// The outside work that follows an event (see `Poller::step`).
pub open spec fn action_after(e: LinkEvent) -> ActionView {
    match e {
        LinkEvent::Scanned(None) => ActionView::Scan { after_ms: SCAN_PAUSE_MS },
        LinkEvent::Scanned(Some(p)) => ActionView::Probe(p@),
        LinkEvent::Probed { port, answered } => if answered {
            ActionView::AskVersion(port@)
        } else {
            ActionView::Scan { after_ms: PROBE_PAUSE_MS }
        },
        LinkEvent::Versioned { .. } => ActionView::Serve,
        LinkEvent::Tick { since_heartbeat_ms } => if since_heartbeat_ms >= HEARTBEAT_MS {
            ActionView::Beat
        } else {
            ActionView::Wait { ms: TICK_MS }
        },
        LinkEvent::Heartbeat { .. } => ActionView::Wait { ms: TICK_MS },
        LinkEvent::Lost => ActionView::Scan { after_ms: 0 },
    }
}

/// The event is an answer to the work: a scan is answered by its result, a
/// probe and a version request by the outcome for that port, serving and
/// waiting by a tick, a heartbeat by its replies or the link lost.
pub open spec fn answers(a: ActionView, e: LinkEvent) -> bool {
    match (a, e) {
        (ActionView::Scan { .. }, LinkEvent::Scanned(_)) => true,
        (ActionView::Probe(p), LinkEvent::Probed { port, .. }) => port@ == p,
        (ActionView::AskVersion(p), LinkEvent::Versioned { port, .. }) => port@ == p,
        (ActionView::Serve, LinkEvent::Tick { .. }) => true,
        (ActionView::Wait { .. }, LinkEvent::Tick { .. }) => true,
        (ActionView::Beat, LinkEvent::Heartbeat { .. }) => true,
        (ActionView::Beat, LinkEvent::Lost) => true,
        _ => false,
    }
}

/// A run of the poll loop from its start (a scan): each event answers the
/// work that the one before it asked for.
pub open spec fn valid_run(evs: Seq<LinkEvent>) -> bool {
    forall|k: int| 0 <= k < evs.len() ==> answers(
        if k == 0 { ActionView::Scan { after_ms: 0 } } else { action_after(evs[k - 1]) },
        #[trigger] evs[k],
    )
}

/// The link state after the events of a run, from nothing known.
pub open spec fn link_after_run(evs: Seq<LinkEvent>) -> LinkView
    decreases evs.len(),
{
    if evs.len() == 0 { empty_link() } else { next_link(link_after_run(evs.drop_last()), evs.last()) }
}

/// In a run of the poll loop the published link holds a port `p` only
/// after `p` was probed and answered, and then told its version; when the
/// link is lost, or the port found no more, it holds no port until then
/// again.
pub proof fn lemma_port_only_after_answered_probe(evs: Seq<LinkEvent>)
    requires
        valid_run(evs),
    ensures
        link_after_run(evs).port matches Some(p) ==> exists|k: int|
            1 <= k < evs.len() && (evs[k - 1] matches LinkEvent::Probed { port, answered } && answered && port@ == p)
                && (#[trigger] evs[k] matches LinkEvent::Versioned { port: q, .. } && q@ == p),
        evs.len() > 0 && (evs.last() is Lost || evs.last() matches LinkEvent::Scanned(None)) ==> link_after_run(evs).port is None,
    decreases evs.len(),
{
    if evs.len() > 0 {
        let init = evs.drop_last();
        assert forall|k: int| 0 <= k < init.len() implies answers(
            if k == 0 { ActionView::Scan { after_ms: 0 } } else { action_after(init[k - 1]) },
            #[trigger] init[k],
        ) by {
            assert(init[k] == evs[k]);
            if k > 0 {
                assert(init[k - 1] == evs[k - 1]);
            }
            assert(answers(if k == 0 { ActionView::Scan { after_ms: 0 } } else { action_after(evs[k - 1]) }, evs[k]));
        }
        lemma_port_only_after_answered_probe(init);
        let n = evs.len() - 1;
        let e = evs[n];
        assert(e == evs.last());
        if let Some(p) = link_after_run(evs).port {
            match e {
                LinkEvent::Versioned { port, version } => {
                    assert(answers(if n == 0 { ActionView::Scan { after_ms: 0 } } else { action_after(evs[n - 1]) }, evs[n]));
                    assert(n >= 1);
                    assert(evs[n] matches LinkEvent::Versioned { port: q, .. } && q@ == p);
                },
                LinkEvent::Lost => {},
                LinkEvent::Scanned(None) => {},
                _ => {
                    assert(link_after_run(init).port == Some(p));
                    let k = choose|k: int|
                        1 <= k < init.len() && (init[k - 1] matches LinkEvent::Probed { port, answered } && answered && port@ == p)
                            && (#[trigger] init[k] matches LinkEvent::Versioned { port: q, .. } && q@ == p);
                    assert(evs[k] == init[k] && evs[k - 1] == init[k - 1]);
                },
            }
        }
    }
}

/// The state of the poll loop: the link state it publishes.
pub struct Poller {
    state: LinkState,
}

impl Poller {
    pub closed spec fn link(&self) -> LinkView {
        self.state@
    }

    /// Nothing known yet.
    pub fn new() -> (r: Poller)
        ensures
            r.link() == empty_link(),
    {
        Poller {
            state: LinkState {
                port: None,
                firmware_version: None,
                uptime: None,
                last_ping: None,
                logging_active: None,
                current_log: None,
                status: None,
            },
        }
    }

    /// The link state to publish.
    pub fn state(&self) -> (r: &LinkState)
        ensures
            r@ == self.link(),
    {
        &self.state
    }

    /// Takes in what the loop learnt; returns the next outside work and
    /// whether the link state changed so that it must be published.
    /// - No port found: wait `SCAN_PAUSE_MS` and scan again; a link that had
    ///   a port is emptied and published.
    /// - A port found: probe it. A probe not answered: wait
    ///   `PROBE_PAUSE_MS` and scan again; answered: ask the version.
    /// - The version answer: the link is that port and version, nothing
    ///   else; published; serve.
    /// - A tick: the heartbeat is due `HEARTBEAT_MS` after the last one,
    ///   else wait `TICK_MS`.
    /// - A heartbeat: uptime, status and logging state are replaced (the
    ///   logging state cleared when its request failed); published; wait
    ///   `TICK_MS`.
    /// - The link lost: emptied, published, scan at once.
    pub fn step(&mut self, event: LinkEvent) -> (r: (LinkAction, bool))
        ensures
            final(self).link() == next_link(old(self).link(), event),
            r.0.view_of() == action_after(event),
            match event {
                LinkEvent::Scanned(None) => {
                    &&& r.0 == (LinkAction::Scan { after_ms: SCAN_PAUSE_MS })
                    &&& r.1 == (old(self).link().port is Some)
                    &&& final(self).link() == (if r.1 { empty_link() } else { old(self).link() })
                },
                LinkEvent::Scanned(Some(p)) => {
                    &&& r.0 matches LinkAction::Probe(q) && q@ == p@
                    &&& !r.1
                    &&& final(self).link() == old(self).link()
                },
                LinkEvent::Probed { port, answered } => {
                    &&& (if answered {
                        r.0 matches LinkAction::AskVersion(q) && q@ == port@
                    } else {
                        r.0 == (LinkAction::Scan { after_ms: PROBE_PAUSE_MS })
                    })
                    &&& !r.1
                    &&& final(self).link() == old(self).link()
                },
                LinkEvent::Versioned { port, version } => {
                    &&& r.0 == LinkAction::Serve
                    &&& r.1
                    &&& final(self).link() == fresh_link(port@, text_of(version))
                },
                LinkEvent::Tick { since_heartbeat_ms } => {
                    &&& r.0 == (if since_heartbeat_ms >= HEARTBEAT_MS { LinkAction::Beat } else { LinkAction::Wait { ms: TICK_MS } })
                    &&& !r.1
                    &&& final(self).link() == old(self).link()
                },
                LinkEvent::Heartbeat { uptime, status, log_status } => {
                    &&& r.0 == (LinkAction::Wait { ms: TICK_MS })
                    &&& r.1
                    &&& final(self).link() == (LinkView {
                        uptime: Some(uptime),
                        status: status,
                        logging_active: match log_status { Some((a, _)) => Some(a), None => None },
                        current_log: match log_status { Some((_, c)) => Some(c@), None => None },
                        ..old(self).link()
                    })
                },
                LinkEvent::Lost => {
                    &&& r.0 == (LinkAction::Scan { after_ms: 0 })
                    &&& r.1
                    &&& final(self).link() == empty_link()
                },
            },
    {
        match event {
            LinkEvent::Scanned(None) => {
                let had_port = self.state.port.is_some();
                if had_port {
                    self.clear();
                }
                (LinkAction::Scan { after_ms: SCAN_PAUSE_MS }, had_port)
            },
            LinkEvent::Scanned(Some(p)) => (LinkAction::Probe(p), false),
            LinkEvent::Probed { port, answered } => {
                if answered {
                    (LinkAction::AskVersion(port), false)
                } else {
                    (LinkAction::Scan { after_ms: PROBE_PAUSE_MS }, false)
                }
            },
            LinkEvent::Versioned { port, version } => {
                self.clear();
                self.state.port = Some(port);
                self.state.firmware_version = version;
                (LinkAction::Serve, true)
            },
            LinkEvent::Tick { since_heartbeat_ms } => {
                if since_heartbeat_ms >= HEARTBEAT_MS {
                    (LinkAction::Beat, false)
                } else {
                    (LinkAction::Wait { ms: TICK_MS }, false)
                }
            },
            LinkEvent::Heartbeat { uptime, status, log_status } => {
                self.state.uptime = Some(uptime);
                self.state.status = status;
                match log_status {
                    Some((active, current)) => {
                        self.state.logging_active = Some(active);
                        self.state.current_log = Some(current);
                    },
                    None => {
                        self.state.logging_active = None;
                        self.state.current_log = None;
                    },
                }
                (LinkAction::Wait { ms: TICK_MS }, true)
            },
            LinkEvent::Lost => {
                self.clear();
                (LinkAction::Scan { after_ms: 0 }, true)
            },
        }
    }

    /// Records whether a ping asked for by the interface was answered; the
    /// rest of the link stays. The link state is then published.
    pub fn record_ping(&mut self, answered: bool)
        ensures
            final(self).link() == (LinkView { last_ping: Some(answered), ..old(self).link() }),
    {
        self.state.last_ping = Some(answered);
    }

    fn clear(&mut self)
        ensures
            final(self).link() == empty_link(),
    {
        self.state.port = None;
        self.state.firmware_version = None;
        self.state.uptime = None;
        self.state.last_ping = None;
        self.state.logging_active = None;
        self.state.current_log = None;
        self.state.status = None;
    }
}

} // verus!
