//! The serial console: cleaning received lines and keeping the most recent
//! ones, and picking the console port among the serial ports.

use vstd::prelude::*;
use std::collections::VecDeque;
use crate::text::{chars_of, push_char, trim_end, trim_end_text};

verus! {

/// Lines kept by the console; older lines are dropped first.
pub const MAX_LINES: usize = 5000;

/// USB vendor id of Espressif chips.
pub const ESPRESSIF_VID: u16 = 0x303a;

/// USB product id of the on-chip USB-serial/JTAG console.
pub const JTAG_SERIAL_PID: u16 = 0x1001;

/// ESC, which starts an ANSI escape sequence.
pub open spec fn is_escape(c: char) -> bool {
    c == '\u{1b}'
}

/// A final byte of a CSI sequence: `@` to `~`.
pub open spec fn is_csi_final(c: char) -> bool {
    0x40 <= (c as u32) && (c as u32) <= 0x7e
}

/// How many characters of `t` belong to a CSI sequence whose `ESC [` was
/// just read: up to and including the first final byte, or all of `t`.
pub open spec fn csi_len(t: Seq<char>) -> nat
    decreases t.len(),
{
    if t.len() == 0 {
        0
    } else if is_csi_final(t[0]) {
        1
    } else {
        1 + csi_len(t.skip(1))
    }
}

pub proof fn lemma_csi_len_bound(t: Seq<char>)
    ensures
        csi_len(t) <= t.len(),
    decreases t.len(),
{
    if t.len() > 0 && !is_csi_final(t[0]) {
        lemma_csi_len_bound(t.skip(1));
    }
}

/// `s` with every ANSI CSI escape sequence (`ESC [` ... final byte) taken out.
pub open spec fn strip_csi(s: Seq<char>) -> Seq<char>
    decreases s.len(),
{
    if s.len() == 0 {
        Seq::empty()
    } else if s.len() >= 2 && is_escape(s[0]) && s[1] == '[' {
        let rest = s.skip(2);
        proof {
            lemma_csi_len_bound(rest);
        }
        strip_csi(rest.skip(csi_len(rest) as int))
    } else {
        seq![s[0]] + strip_csi(s.skip(1))
    }
}

proof fn lemma_csi_len_step(t: Seq<char>, k: int)
    requires
        0 <= k < t.len(),
        forall|j: int| 0 <= j < k ==> !is_csi_final(#[trigger] t[j]),
    ensures
        csi_len(t) == k + csi_len(t.skip(k)),
    decreases k,
{
    if k > 0 {
        assert(t.skip(1).skip(k - 1) =~= t.skip(k));
        assert(!is_csi_final(t[0]));
        assert forall|j: int| 0 <= j < k - 1 implies !is_csi_final(#[trigger] t.skip(1)[j]) by {
            assert(t.skip(1)[j] == t[j + 1]);
        }
        lemma_csi_len_step(t.skip(1), k - 1);
    } else {
        assert(t.skip(0) =~= t);
    }
}

proof fn lemma_csi_len_unterminated(t: Seq<char>)
    requires
        forall|j: int| 0 <= j < t.len() ==> !is_csi_final(#[trigger] t[j]),
    ensures
        csi_len(t) == t.len(),
    decreases t.len(),
{
    if t.len() > 0 {
        assert(!is_csi_final(t[0]));
        assert forall|j: int| 0 <= j < t.len() - 1 implies !is_csi_final(#[trigger] t.skip(1)[j]) by {
            assert(t.skip(1)[j] == t[j + 1]);
        }
        lemma_csi_len_unterminated(t.skip(1));
    }
}

/// Strips ANSI CSI escape sequences (`\x1b[...<final byte>`).
pub fn strip_ansi(input: &str) -> (r: String)
    ensures
        r@ == strip_csi(input@),
{
    let cs = chars_of(input);
    let ghost s = input@;
    let n = cs.len();
    let mut out = String::new();
    let mut i: usize = 0;
    assert(s.skip(0) =~= s);
    while i < n
        invariant
            cs@ == s,
            n == s.len(),
            i <= n,
            strip_csi(s) == out@ + strip_csi(s.skip(i as int)),
        decreases n - i,
    {
        let c = cs[i];
        if c == '\u{1b}' && i + 1 < n && cs[i + 1] == '[' {
            let ghost rest = s.skip(i + 2);
            let mut j: usize = i + 2;
            while j < n && !(0x40 <= (cs[j] as u32) && (cs[j] as u32) <= 0x7e)
                invariant
                    cs@ == s,
                    n == s.len(),
                    i + 2 <= j <= n,
                    rest == s.skip(i + 2),
                    forall|m: int| i + 2 <= m < j ==> !is_csi_final(#[trigger] s[m]),
                decreases n - j,
            {
                j += 1;
            }
            let end: usize = if j < n { j + 1 } else { n };
            proof {
                assert(s.skip(i as int).skip(2) =~= rest);
                assert forall|m: int| 0 <= m < j - (i + 2) implies !is_csi_final(#[trigger] rest[m]) by {
                    assert(rest[m] == s[m + i + 2]);
                }
                if j < n {
                    lemma_csi_len_step(rest, j - (i + 2));
                    assert(rest.skip(j - (i + 2)) =~= s.skip(j as int));
                    assert(is_csi_final(s[j as int]));
                    assert(csi_len(rest) == j - (i + 2) + 1);
                } else {
                    lemma_csi_len_unterminated(rest);
                }
                assert(rest.skip(csi_len(rest) as int) =~= s.skip(end as int));
            }
            i = end;
        } else {
            push_char(&mut out, c);
            proof {
                assert(s.skip(i as int).skip(1) =~= s.skip(i + 1));
                assert(s.skip(i as int)[0] == c);
            }
            i += 1;
        }
    }
    assert(s.skip(n as int) =~= Seq::<char>::empty());
    out
}

/// The console line of a line read from the port: trailing white space
/// trimmed and escape sequences stripped; none when nothing is left.
pub fn console_line(raw: &str) -> (r: Option<String>)
    ensures
        match r {
            Some(l) => l@ == strip_csi(trim_end(raw@)) && l@.len() > 0,
            None => strip_csi(trim_end(raw@)).len() == 0,
        },
{
    let trimmed = trim_end_text(raw);
    let line = strip_ansi(trimmed.as_str());
    if line.as_str().is_empty() { None } else { Some(line) }
}

/// The most recent console lines, at most `MAX_LINES` of them.
pub struct SharedLines {
    lines: VecDeque<String>,
}

/// `s` cut to its last `max` entries.
pub open spec fn keep_last<T>(s: Seq<T>, max: nat) -> Seq<T> {
    if s.len() > max { s.skip(s.len() - max) } else { s }
}

impl View for SharedLines {
    type V = Seq<String>;

    closed spec fn view(&self) -> Seq<String> {
        self.lines@
    }
}

impl SharedLines {
    /// No more than `MAX_LINES` lines are held.
    #[verifier::type_invariant]
    closed spec fn wf(&self) -> bool {
        self.lines@.len() <= MAX_LINES
    }

    /// An empty set of lines.
    pub fn new() -> (r: SharedLines)
        ensures
            r@ == Seq::<String>::empty(),
    {
        SharedLines { lines: VecDeque::new() }
    }

    /// Appends a line, dropping the oldest one past `MAX_LINES`.
    pub fn push(&mut self, line: String)
        ensures
            final(self)@ == keep_last(old(self)@.push(line), MAX_LINES as nat),
            final(self)@.len() <= MAX_LINES,
    {
        proof {
            use_type_invariant(&*self);
        }
        let mut lines: VecDeque<String> = VecDeque::new();
        std::mem::swap(&mut lines, &mut self.lines);
        lines.push_back(line);
        if lines.len() > MAX_LINES {
            lines.pop_front();
        }
        self.lines = lines;
    }

    /// Number of lines held.
    pub fn len(&self) -> (r: usize)
        ensures
            r == self@.len(),
    {
        self.lines.len()
    }

    /// A copy of the lines held, oldest first.
    pub fn snapshot(&self) -> (r: VecDeque<String>)
        ensures
            r@ == self@,
    {
        self.lines.clone()
    }
}

/// The lines held after pushing `lines`, one after the other, onto an empty
/// set of lines.
pub open spec fn after_pushes(lines: Seq<String>) -> Seq<String>
    decreases lines.len(),
{
    if lines.len() == 0 {
        Seq::empty()
    } else {
        keep_last(after_pushes(lines.drop_last()).push(lines.last()), MAX_LINES as nat)
    }
}

/// Pushing lines one by one onto empty lines keeps the last `MAX_LINES` of
/// them, oldest first: as many as were pushed, up to `MAX_LINES`.
pub proof fn lemma_pushes_keep_last(lines: Seq<String>)
    ensures
        after_pushes(lines) == keep_last(lines, MAX_LINES as nat),
        after_pushes(lines).len() == (if lines.len() < MAX_LINES { lines.len() } else { MAX_LINES as nat }),
    decreases lines.len(),
{
    let m = MAX_LINES as nat;
    if lines.len() > 0 {
        let init = lines.drop_last();
        lemma_pushes_keep_last(init);
        let k = keep_last(init, m);
        assert(lines =~= init.push(lines.last()));
        if init.len() > m {
            assert(k.push(lines.last()) =~= lines.skip(init.len() - m));
            assert(keep_last(k.push(lines.last()), m) =~= lines.skip(lines.len() - m));
        } else {
            assert(k =~= init);
            assert(k.push(lines.last()) =~= lines);
        }
    } else {
        assert(keep_last(lines, m) =~= lines);
    }
}

/// What the serial port listing tells of one port: its name and, for a USB
/// port, its vendor and product ids.
#[derive(Clone, Debug)]
pub struct PortInfo {
    pub name: String,
    pub usb_ids: Option<(u16, u16)>,
}

/// Index of the first port satisfying `pick` on its USB ids.
pub open spec fn first_usb_match(ports: Seq<PortInfo>, vid: u16, pid: u16, same_pid: bool) -> Option<int>
    decreases ports.len(),
{
    if ports.len() == 0 {
        None
    } else {
        match first_usb_match(ports.drop_last(), vid, pid, same_pid) {
            Some(i) => Some(i),
            None => match ports.last().usb_ids {
                Some((v, p)) => if v == vid && ((p == pid) == same_pid) { Some(ports.len() - 1) } else { None },
                None => None,
            },
        }
    }
}

/// The name of the first USB port with vendor `vid` whose product id is
/// `pid` (when `same_pid`) or is not `pid` (otherwise).
pub fn select_port(ports: &Vec<PortInfo>, vid: u16, pid: u16, same_pid: bool) -> (r: Option<String>)
    ensures
        match first_usb_match(ports@, vid, pid, same_pid) {
            Some(i) => r == Some(ports@[i].name),
            None => r is None,
        },
        r matches Some(name) ==> exists|i: int|
            #![trigger ports@[i]]
            0 <= i < ports@.len() && ports@[i].name == name && (ports@[i].usb_ids matches Some((v, p)) && v
                == vid && ((p == pid) == same_pid)) && forall|j: int|
                0 <= j < i ==> !(#[trigger] ports@[j].usb_ids matches Some((v, p)) && v == vid && ((p == pid) == same_pid)),
        r is None ==> forall|j: int|
            0 <= j < ports@.len() ==> !(#[trigger] ports@[j].usb_ids matches Some((v, p)) && v == vid && ((p == pid) == same_pid)),
{
    proof {
        lemma_first_usb_match_is_first(ports@, vid, pid, same_pid);
    }
    let mut i: usize = 0;
    assert(ports@.take(0) =~= Seq::<PortInfo>::empty());
    while i < ports.len()
        invariant
            i <= ports@.len(),
            first_usb_match(ports@.take(i as int), vid, pid, same_pid) is None,
        decreases ports@.len() - i,
    {
        assert(ports@.take(i + 1).drop_last() =~= ports@.take(i as int));
        let hit = match ports[i].usb_ids {
            Some((v, p)) => v == vid && ((p == pid) == same_pid),
            None => false,
        };
        if hit {
            proof {
                lemma_first_usb_match_stable(ports@, vid, pid, same_pid, i as int + 1);
                lemma_first_usb_match_is_first(ports@, vid, pid, same_pid);
                assert(ports@[i as int].name == ports[i as int].name);
            }
            return Some(ports[i].name.clone());
        }
        i += 1;
    }
    assert(ports@.take(ports@.len() as int) =~= ports@);
    None
}

/// The match is the first port whose USB ids carry the vendor `vid` and a
/// product id equal to `pid` (when `same_pid`) or other than `pid`; there
/// is none when no port carries such ids.
pub proof fn lemma_first_usb_match_is_first(ports: Seq<PortInfo>, vid: u16, pid: u16, same_pid: bool)
    ensures
        match first_usb_match(ports, vid, pid, same_pid) {
            Some(i) => {
                &&& 0 <= i < ports.len()
                &&& ports[i].usb_ids matches Some((v, p)) && v == vid && ((p == pid) == same_pid)
                &&& forall|j: int|
                    0 <= j < i ==> !(#[trigger] ports[j].usb_ids matches Some((v, p)) && v == vid && ((p == pid)
                        == same_pid))
            },
            None => forall|j: int|
                0 <= j < ports.len() ==> !(#[trigger] ports[j].usb_ids matches Some((v, p)) && v == vid && ((p
                    == pid) == same_pid)),
        },
    decreases ports.len(),
{
    if ports.len() > 0 {
        let init = ports.drop_last();
        lemma_first_usb_match_is_first(init, vid, pid, same_pid);
        if let Some(i) = first_usb_match(init, vid, pid, same_pid) {
            assert(init[i] == ports[i]);
        }
        assert forall|j: int| 0 <= j < init.len() implies #[trigger] ports[j].usb_ids == init[j].usb_ids by {}
    }
}

proof fn lemma_first_usb_match_stable(ports: Seq<PortInfo>, vid: u16, pid: u16, same_pid: bool, k: int)
    requires
        0 <= k <= ports.len(),
        first_usb_match(ports.take(k), vid, pid, same_pid) is Some,
    ensures
        first_usb_match(ports, vid, pid, same_pid) == first_usb_match(ports.take(k), vid, pid, same_pid),
    decreases ports.len() - k,
{
    if k < ports.len() {
        assert(ports.take(k + 1).drop_last() =~= ports.take(k));
        lemma_first_usb_match_stable(ports, vid, pid, same_pid, k + 1);
    } else {
        assert(ports.take(k) =~= ports);
    }
}

/// The console port: the first USB port of an Espressif chip's
/// USB-serial/JTAG console.
pub fn find_port(ports: &Vec<PortInfo>) -> (r: Option<String>)
    ensures
        match first_usb_match(ports@, ESPRESSIF_VID, JTAG_SERIAL_PID, true) {
            Some(i) => r == Some(ports@[i].name),
            None => r is None,
        },
        r matches Some(name) ==> exists|i: int|
            #![trigger ports@[i]]
            0 <= i < ports@.len() && ports@[i].name == name && ports@[i].usb_ids == Some((0x303au16, 0x1001u16))
                && forall|j: int| 0 <= j < i ==> #[trigger] ports@[j].usb_ids != Some((0x303au16, 0x1001u16)),
        r is None ==> forall|j: int| 0 <= j < ports@.len() ==> #[trigger] ports@[j].usb_ids != Some((0x303au16, 0x1001u16)),
{
    select_port(ports, ESPRESSIF_VID, JTAG_SERIAL_PID, true)
}


/// Pause before looking for the console port again.
pub const RESCAN_MS: u64 = 1000;

/// Interval at which the console's lines are looked at.
pub const CONSOLE_POLL_MS: u64 = 350;

/// What following the console port learnt.
pub enum ConsoleEvent {
    /// The console port, if one was found.
    Scanned(Option<String>),
    /// Whether the port could be opened.
    Opened { port: String, ok: bool },
    /// A look at the lines: whether the reader has ended, and how many
    /// lines there are.
    Polled { reader_done: bool, len: usize },
}

/// What following the console port does next.
#[derive(Debug)]
pub enum ConsoleAction {
    /// Wait this long, then look for the port.
    Scan { after_ms: u64 },
    /// Open the port.
    Open(String),
    /// Start reading the port, report it connected with no lines, then look
    /// at the lines after `CONSOLE_POLL_MS`.
    Connected(String),
    /// Report the lines, then look again after `CONSOLE_POLL_MS`.
    Report,
    /// Nothing new: look again after `CONSOLE_POLL_MS`.
    Wait,
    /// Report the port gone, then look for it at once.
    Disconnected,
}

/// Following the console port: the line count last reported.
pub struct ConsoleFollow {
    pub last_seen_len: usize,
}

impl ConsoleFollow {
    /// Nothing reported yet.
    pub fn new() -> (r: ConsoleFollow)
        ensures
            r.last_seen_len == 0,
    {
        ConsoleFollow { last_seen_len: 0 }
    }

    /// Takes in what was learnt; returns what to do next.
    /// - No port: look again after `RESCAN_MS`; a port: open it; a port that
    ///   does not open: look again after `RESCAN_MS`.
    /// - A port opened: connected, with no line reported yet.
    /// - The reader ended: disconnected. Else the lines are reported when
    ///   their count changed since the last report, and only then.
    pub fn step(&mut self, event: ConsoleEvent) -> (r: ConsoleAction)
        ensures
            match event {
                ConsoleEvent::Scanned(None) => r == (ConsoleAction::Scan { after_ms: RESCAN_MS }) && final(self).last_seen_len == old(self).last_seen_len,
                ConsoleEvent::Scanned(Some(p)) => (r matches ConsoleAction::Open(q) && q@ == p@) && final(self).last_seen_len == old(self).last_seen_len,
                ConsoleEvent::Opened { port, ok } => if ok {
                    (r matches ConsoleAction::Connected(q) && q@ == port@) && final(self).last_seen_len == 0
                } else {
                    r == (ConsoleAction::Scan { after_ms: RESCAN_MS }) && final(self).last_seen_len == old(self).last_seen_len
                },
                ConsoleEvent::Polled { reader_done, len } => if reader_done {
                    r == ConsoleAction::Disconnected && final(self).last_seen_len == old(self).last_seen_len
                } else if len == old(self).last_seen_len {
                    r == ConsoleAction::Wait && final(self).last_seen_len == old(self).last_seen_len
                } else {
                    r == ConsoleAction::Report && final(self).last_seen_len == len
                },
            },
    {
        match event {
            ConsoleEvent::Scanned(None) => ConsoleAction::Scan { after_ms: RESCAN_MS },
            ConsoleEvent::Scanned(Some(p)) => ConsoleAction::Open(p),
            ConsoleEvent::Opened { port, ok } => {
                if ok {
                    self.last_seen_len = 0;
                    ConsoleAction::Connected(port)
                } else {
                    ConsoleAction::Scan { after_ms: RESCAN_MS }
                }
            },
            ConsoleEvent::Polled { reader_done, len } => {
                if reader_done {
                    ConsoleAction::Disconnected
                } else if len == self.last_seen_len {
                    ConsoleAction::Wait
                } else {
                    self.last_seen_len = len;
                    ConsoleAction::Report
                }
            },
        }
    }
}

} // verus!
