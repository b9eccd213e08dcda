//! The logger's serial protocol: commands, the records its replies carry,
//! hex transport of binary data, and the bookkeeping of chunked downloads.

use vstd::prelude::*;
use vstd::string::*;
use crate::console::{first_usb_match, select_port, PortInfo, ESPRESSIF_VID};
use crate::text::push_char;
use vstd::utf8::{encode_utf8, encode_scalar, has_width_1_encoding, leading_byte_width_1};

verus! {

#[verifier::external_type_specification]
#[verifier::external_body]
pub struct ExJsonValue(serde_json::Value);

/// A request to the logger. On the wire it is one JSON object whose `cmd`
/// field is the variant name in snake case, with the variant's fields
/// beside it.
#[derive(Debug)]
pub enum Command {
    Ping,
    Version,
    Status,
    GetConfig,
    SetConfig { args: serde_json::Value },
    Frames,
    CanNodes,
    Uptime,
    Gps,
    Imu,
    Resources,
    ListLogs,
    LogChunk { name: String, offset: u64 },
    LogStatus,
    SetLogging { active: bool },
    NextLog,
    Reboot,
    OtaUpload { offset: u64, data: String },
    OtaFlash { node: u8, size: u32, crc: u32 },
    OtaStatus,
}

/// Progress of a firmware update as the logger reports it.
#[derive(Clone, Debug)]
pub struct OtaStatus {
    pub active: bool,
    pub sent: u32,
    pub total: u32,
    /// `None` while running; `Some(0)` = success, else a failure code:
    /// `1..=6` `can_ota_result`, `0xFE` node silent, `0xFD` upload starved,
    /// `0xF2` logger flash write, `0xF3` logger verify.
    pub result: Option<u8>,
}

/// A log file on the logger's SD card.
#[derive(Clone, Debug)]
pub struct LogEntry {
    pub name: String,
    pub size: u64,
}

/// A node seen on the CAN bus.
#[derive(Clone, Copy, Debug)]
pub struct CanNode {
    pub node: u8,
    pub device_type: u8,
    /// Millis since this node's last heartbeat
    pub age_ms: i64,
}

/// Per-subsystem init/health flags reported by the firmware's `Status` command.
#[derive(Clone, Copy, Debug)]
pub struct DeviceStatusFlags {
    pub adc: bool,
    pub can: bool,
    pub gnss: bool,
    pub imu: bool,
    pub logging: bool,
    pub sd: bool,
    pub usb_hs: bool,
}

impl Default for DeviceStatusFlags {
    /// Every flag down.
    fn default() -> (r: DeviceStatusFlags)
        ensures
            !r.adc && !r.can && !r.gnss && !r.imu && !r.logging && !r.sd && !r.usb_hs,
    {
        DeviceStatusFlags { adc: false, can: false, gnss: false, imu: false, logging: false, sd: false, usb_hs: false }
    }
}

/// The lower-case hex digit of `d < 16`.
pub open spec fn hex_digit(d: int) -> char {
    if d < 10 { ((48 + d) as u8) as char } else { ((87 + d) as u8) as char }
}

/// Two lower-case hex digits per byte.
pub open spec fn hex_text(b: Seq<u8>) -> Seq<char>
    decreases b.len(),
{
    if b.len() == 0 {
        Seq::empty()
    } else {
        hex_text(b.drop_last()).push(hex_digit((b.last() / 16) as int)).push(hex_digit((b.last() % 16) as int))
    }
}

fn hex_digit_char(d: u8) -> (c: char)
    requires
        d < 16,
    ensures
        c == hex_digit(d as int),
{
    if d < 10 { (48u8 + d) as char } else { (87u8 + d) as char }
}

/// Bytes as lower-case hex, two digits per byte.
pub fn hex_encode(bytes: &[u8]) -> (r: String)
    ensures
        r@ == hex_text(bytes@),
{
    let mut out = String::new();
    let mut i: usize = 0;
    assert(bytes@.take(0) =~= Seq::<u8>::empty());
    while i < bytes.len()
        invariant
            i <= bytes@.len(),
            out@ == hex_text(bytes@.take(i as int)),
        decreases bytes@.len() - i,
    {
        let b = bytes[i];
        push_char(&mut out, hex_digit_char(b / 16));
        push_char(&mut out, hex_digit_char(b % 16));
        assert(bytes@.take(i + 1).drop_last() =~= bytes@.take(i as int));
        i += 1;
    }
    assert(bytes@.take(bytes@.len() as int) =~= bytes@);
    out
}

/// The value of an ASCII hex digit (either case).
pub open spec fn hex_value(b: u8) -> Option<u8> {
    if 48 <= b && b <= 57 {
        Some((b - 48) as u8)
    } else if 97 <= b && b <= 102 {
        Some((b - 87) as u8)
    } else if 65 <= b && b <= 70 {
        Some((b - 55) as u8)
    } else {
        None
    }
}

/// The byte written by two characters, as `u8::from_str_radix(_, 16)` reads
/// them: two hex digits, or `+` and one hex digit.
pub open spec fn pair_value(b0: u8, b1: u8) -> Option<u8> {
    match (hex_value(b0), hex_value(b1)) {
        (Some(h), Some(l)) => Some((16 * h + l) as u8),
        (None, Some(l)) => if b0 == 43 { Some(l) } else { None },
        _ => None,
    }
}

/// A UTF-8 continuation byte: no character starts there.
pub open spec fn is_continuation(b: u8) -> bool {
    0x80 <= b && b <= 0xbf
}

/// Outcome of decoding hex text pair by pair.
pub enum HexDecoded {
    Bytes(Seq<u8>),
    BadDigit,
    /// A pair is not made of whole characters: slicing it would panic.
    Unsliceable,
}

/// Decodes the UTF-8 bytes of hex text two at a time, front to back,
/// stopping at the first pair that is not whole characters or not a byte.
pub open spec fn decode_pairs(b: Seq<u8>) -> HexDecoded
    decreases b.len(),
{
    if b.len() < 2 {
        HexDecoded::Bytes(Seq::empty())
    } else if is_continuation(b[0]) || (b.len() > 2 && is_continuation(b[2])) {
        HexDecoded::Unsliceable
    } else {
        match pair_value(b[0], b[1]) {
            None => HexDecoded::BadDigit,
            Some(v) => match decode_pairs(b.skip(2)) {
                HexDecoded::Bytes(rest) => HexDecoded::Bytes(seq![v] + rest),
                other => other,
            },
        }
    }
}

/// Why hex text could not be decoded.
#[derive(Clone, Copy, PartialEq, Eq, Structural, Debug)]
pub enum HexError {
    /// "odd-length hex string"
    OddLength,
    /// "bad hex"
    BadDigit,
}

/// The result of decoding when `done` bytes were decoded before `rest`.
pub open spec fn after(done: Seq<u8>, rest: HexDecoded) -> HexDecoded {
    match rest {
        HexDecoded::Bytes(r) => HexDecoded::Bytes(done + r),
        other => other,
    }
}

fn hex_value_of(b: u8) -> (r: Option<u8>)
    ensures
        r == hex_value(b),
{
    if 48 <= b && b <= 57 {
        Some(b - 48)
    } else if 97 <= b && b <= 102 {
        Some(b - 87)
    } else if 65 <= b && b <= 70 {
        Some(b - 55)
    } else {
        None
    }
}

/// Decodes hex text (two characters per byte, either case).
pub fn hex_decode(s: &str) -> (r: Result<Vec<u8>, HexError>)
    requires
        s.spec_bytes().len() % 2 == 0 ==> !(decode_pairs(s.spec_bytes()) is Unsliceable),
    ensures
        s.spec_bytes().len() % 2 == 1 ==> r == Err::<Vec<u8>, HexError>(HexError::OddLength),
        s.spec_bytes().len() % 2 == 0 ==> match decode_pairs(s.spec_bytes()) {
            HexDecoded::Bytes(v) => r is Ok && r->Ok_0@ == v,
            _ => r == Err::<Vec<u8>, HexError>(HexError::BadDigit),
        },
{
    let b = s.as_bytes();
    let n = b.len();
    if n % 2 != 0 {
        return Err(HexError::OddLength);
    }
    let mut out: Vec<u8> = Vec::new();
    let mut i: usize = 0;
    assert(b@.skip(0) =~= b@);
    while i < n
        invariant
            b@ == s.spec_bytes(),
            n == b@.len(),
            n % 2 == 0,
            i % 2 == 0,
            i <= n,
            !(decode_pairs(b@) is Unsliceable),
            decode_pairs(b@) == after(out@, decode_pairs(b@.skip(i as int))),
        decreases n - i,
    {
        let ghost rest = b@.skip(i as int);
        assert(rest.len() >= 2);
        assert(rest.skip(2) =~= b@.skip(i + 2));
        let hi = hex_value_of(b[i]);
        let lo = hex_value_of(b[i + 1]);
        let v: u8 = match (hi, lo) {
            (Some(h), Some(l)) => 16 * h + l,
            (None, Some(l)) => {
                if b[i] == 43 {
                    l
                } else {
                    return Err(HexError::BadDigit);
                }
            },
            _ => return Err(HexError::BadDigit),
        };
        assert(pair_value(rest[0], rest[1]) == Some(v));
        let ghost before = out@;
        out.push(v);
        assert(before + (seq![v] + Seq::<u8>::empty()) =~= out@);
        proof {
            match decode_pairs(b@.skip(i + 2)) {
                HexDecoded::Bytes(r) => {
                    assert(before + (seq![v] + r) =~= out@ + r);
                },
                _ => {},
            }
        }
        i += 2;
    }
    assert(b@.skip(n as int) =~= Seq::<u8>::empty());
    Ok(out)
}

/// Whether decoding `s` would come to a pair that splits a character
/// (where slicing the pair out of the text panics): the inputs that
/// `hex_decode` does not take.
pub fn hex_splits_a_char(s: &str) -> (r: bool)
    ensures
        r == (s.spec_bytes().len() % 2 == 0 && decode_pairs(s.spec_bytes()) is Unsliceable),
{
    let b = s.as_bytes();
    let n = b.len();
    if n % 2 != 0 {
        return false;
    }
    let mut i: usize = 0;
    assert(b@.skip(0) =~= b@);
    while i < n
        invariant
            b@ == s.spec_bytes(),
            n == b@.len(),
            n % 2 == 0,
            i % 2 == 0,
            i <= n,
            (decode_pairs(b@) is Unsliceable) == (decode_pairs(b@.skip(i as int)) is Unsliceable),
        decreases n - i,
    {
        let ghost rest = b@.skip(i as int);
        assert(rest.len() >= 2);
        assert(rest.skip(2) =~= b@.skip(i + 2));
        assert(rest[0] == b[i as int] && rest[1] == b[i + 1]);
        if (0x80 <= b[i] && b[i] <= 0xbf) || (i + 2 < n && 0x80 <= b[i + 2] && b[i + 2] <= 0xbf) {
            assert(rest.len() > 2 ==> rest[2] == b[i + 2]);
            return true;
        }
        let hi = hex_value_of(b[i]);
        let lo = hex_value_of(b[i + 1]);
        let ok = match (hi, lo) {
            (Some(_), Some(_)) => true,
            (None, Some(_)) => b[i] == 43,
            _ => false,
        };
        if !ok {
            assert(pair_value(rest[0], rest[1]) is None);
            return false;
        }
        assert(pair_value(rest[0], rest[1]) is Some);
        i += 2;
    }
    assert(b@.skip(n as int).len() == 0);
    false
}

/// The bytes of characters below 128, one byte each.
pub open spec fn ascii_bytes(cs: Seq<char>) -> Seq<u8> {
    cs.map_values(|c: char| (c as u32) as u8)
}

proof fn lemma_encode_ascii(cs: Seq<char>)
    requires
        forall|i: int| 0 <= i < cs.len() ==> (#[trigger] cs[i] as u32) < 128,
    ensures
        encode_utf8(cs) == ascii_bytes(cs),
    decreases cs.len(),
{
    if cs.len() > 0 {
        let t = cs.drop_first();
        assert forall|i: int| 0 <= i < t.len() implies (#[trigger] t[i] as u32) < 128 by {
            assert(t[i] == cs[i + 1]);
        }
        lemma_encode_ascii(t);
        let v = cs[0] as u32;
        assert(v < 128);
        assert((v & 0x7F) == v) by (bit_vector)
            requires
                v < 128,
        ;
        assert(has_width_1_encoding(v));
        assert(encode_scalar(v) == seq![leading_byte_width_1(v)]);
        assert(ascii_bytes(cs) =~= seq![(v as u8)] + ascii_bytes(t));
    }
}

proof fn lemma_hex_text_append(a: Seq<u8>, c: Seq<u8>)
    ensures
        hex_text(a + c) == hex_text(a) + hex_text(c),
    decreases c.len(),
{
    if c.len() == 0 {
        assert(a + c =~= a);
        assert(hex_text(a) + hex_text(c) =~= hex_text(a));
    } else {
        lemma_hex_text_append(a, c.drop_last());
        assert((a + c).drop_last() =~= a + c.drop_last());
        assert((a + c).last() == c.last());
        assert(hex_text(a) + hex_text(c) =~= hex_text(a) + hex_text(c.drop_last()).push(hex_digit((c.last() / 16) as int)).push(
            hex_digit((c.last() % 16) as int),
        ));
    }
}

proof fn lemma_hex_digit(d: int)
    requires
        0 <= d < 16,
    ensures
        (hex_digit(d) as u32) < 128,
        hex_value((hex_digit(d) as u32) as u8) == Some(d as u8),
        !is_continuation((hex_digit(d) as u32) as u8),
{
    if d < 10 {
        assert(hex_digit(d) as u32 == 48 + d);
    } else {
        assert(hex_digit(d) as u32 == 87 + d);
    }
}

proof fn lemma_hex_text_ascii(b: Seq<u8>)
    ensures
        hex_text(b).len() == 2 * b.len(),
        forall|i: int| 0 <= i < hex_text(b).len() ==> (#[trigger] hex_text(b)[i] as u32) < 128,
    decreases b.len(),
{
    if b.len() > 0 {
        lemma_hex_text_ascii(b.drop_last());
        lemma_hex_digit((b.last() / 16) as int);
        lemma_hex_digit((b.last() % 16) as int);
        let t = hex_text(b);
        let p = hex_text(b.drop_last());
        assert forall|i: int| 0 <= i < t.len() implies (#[trigger] t[i] as u32) < 128 by {
            if i < p.len() {
                assert(t[i] == p[i]);
            }
        }
    }
}

proof fn lemma_decode_hex(b: Seq<u8>)
    ensures
        decode_pairs(ascii_bytes(hex_text(b))) == HexDecoded::Bytes(b),
    decreases b.len(),
{
    if b.len() > 0 {
        let x = b[0];
        let rest = b.drop_first();
        assert(b =~= seq![x] + rest);
        lemma_hex_text_append(seq![x], rest);
        let one = seq![x];
        assert(one.drop_last() =~= Seq::<u8>::empty());
        assert(one.last() == x);
        assert(hex_text(one.drop_last()) =~= Seq::<char>::empty());
        let h = hex_digit((x / 16) as int);
        let l = hex_digit((x % 16) as int);
        assert(hex_text(one) =~= seq![h, l]);
        lemma_hex_digit((x / 16) as int);
        lemma_hex_digit((x % 16) as int);
        lemma_decode_hex(rest);
        let bytes = ascii_bytes(hex_text(b));
        assert(hex_text(b) == seq![h, l] + hex_text(rest));
        assert(bytes =~= seq![(h as u32) as u8, (l as u32) as u8] + ascii_bytes(hex_text(rest)));
        assert(bytes.skip(2) =~= ascii_bytes(hex_text(rest)));
        lemma_hex_text_ascii(rest);
        if bytes.len() > 2 {
            let c = hex_text(rest)[0];
            assert(bytes[2] == (c as u32) as u8);
            assert((c as u32) < 128);
            assert(((c as u32) as u8) as u32 == c as u32);
            assert(!is_continuation(bytes[2]));
        }
        assert(bytes[0] == (h as u32) as u8);
        assert(bytes[1] == (l as u32) as u8);
        assert(!is_continuation(bytes[0]));
        assert(hex_value(bytes[0]) == Some((x / 16) as u8));
        assert(hex_value(bytes[1]) == Some((x % 16) as u8));
        assert(pair_value(bytes[0], bytes[1]) == Some(x));
        assert(decode_pairs(bytes.skip(2)) == HexDecoded::Bytes(rest));
        assert(seq![x] + rest =~= b);
        assert(bytes.len() >= 2);
        assert(decode_pairs(bytes) == HexDecoded::Bytes(seq![x] + rest));
    } else {
        assert(ascii_bytes(hex_text(b)) =~= Seq::<u8>::empty());
        assert(b =~= Seq::<u8>::empty());
    }
}

/// Hex text decodes back to the bytes it was written from: decoding the
/// UTF-8 of `hex_encode`'s text gives the bytes, with no pair refused.
pub proof fn lemma_hex_round_trip(b: Seq<u8>)
    ensures
        encode_utf8(hex_text(b)).len() == 2 * b.len(),
        decode_pairs(encode_utf8(hex_text(b))) == HexDecoded::Bytes(b),
{
    lemma_hex_text_ascii(b);
    lemma_encode_ascii(hex_text(b));
    lemma_decode_hex(b);
}

/// A hex digit character, in either case.
pub open spec fn is_hex_char(c: char) -> bool {
    let v = c as u32;
    (48 <= v && v <= 57) || (97 <= v && v <= 102) || (65 <= v && v <= 70)
}

/// A character with ASCII upper-case letters turned lower-case.
pub open spec fn lower_char(c: char) -> char {
    let v = c as u32;
    if 65 <= v && v <= 90 { ((v + 32) as u8) as char } else { c }
}

/// Text with ASCII upper-case letters turned lower-case
/// (`str::to_ascii_lowercase`).
pub open spec fn lower_text(s: Seq<char>) -> Seq<char> {
    s.map_values(|c: char| lower_char(c))
}

proof fn lemma_hex_char(c: char)
    requires
        is_hex_char(c),
    ensures
        (c as u32) < 128,
        !is_continuation((c as u32) as u8),
        hex_value((c as u32) as u8) is Some,
        hex_value((c as u32) as u8)->0 < 16,
        hex_digit(hex_value((c as u32) as u8)->0 as int) == lower_char(c),
{
    let v = c as u32;
    assert(((v as u8) as u32) == v);
    if 48 <= v && v <= 57 {
        assert(hex_digit((v - 48) as int) as u32 == v);
    } else if 97 <= v && v <= 102 {
        assert(hex_digit((v - 87) as int) as u32 == v);
    } else {
        assert(hex_digit((v - 55) as int) as u32 == v + 32);
        assert(lower_char(c) as u32 == v + 32);
    }
}

proof fn lemma_decode_lower(s: Seq<char>)
    requires
        s.len() % 2 == 0,
        forall|i: int| 0 <= i < s.len() ==> is_hex_char(#[trigger] s[i]),
    ensures
        decode_pairs(ascii_bytes(s)) is Bytes,
        hex_text(decode_pairs(ascii_bytes(s))->Bytes_0) == lower_text(s),
    decreases s.len(),
{
    let b = ascii_bytes(s);
    if s.len() == 0 {
        assert(b =~= Seq::<u8>::empty());
        assert(decode_pairs(b) == HexDecoded::Bytes(Seq::<u8>::empty()));
        assert(hex_text(Seq::<u8>::empty()) =~= lower_text(s));
    } else {
        let rest = s.skip(2);
        assert forall|i: int| 0 <= i < rest.len() implies is_hex_char(#[trigger] rest[i]) by {
            assert(rest[i] == s[i + 2]);
        }
        lemma_decode_lower(rest);
        lemma_hex_char(s[0]);
        lemma_hex_char(s[1]);
        let h = hex_value(b[0])->0;
        let l = hex_value(b[1])->0;
        assert(b[0] == (s[0] as u32) as u8 && b[1] == (s[1] as u32) as u8);
        let x: u8 = (16 * h + l) as u8;
        assert(pair_value(b[0], b[1]) == Some(x));
        assert(b.skip(2) =~= ascii_bytes(rest));
        if b.len() > 2 {
            lemma_hex_char(s[2]);
            assert(b[2] == (s[2] as u32) as u8);
        }
        let v2 = decode_pairs(ascii_bytes(rest))->Bytes_0;
        assert(decode_pairs(b) == HexDecoded::Bytes(seq![x] + v2));
        lemma_hex_text_append(seq![x], v2);
        let one = seq![x];
        assert(one.drop_last() =~= Seq::<u8>::empty());
        assert(hex_text(one.drop_last()) =~= Seq::<char>::empty());
        assert(x / 16 == h && x % 16 == l);
        assert(hex_text(one) =~= seq![lower_char(s[0]), lower_char(s[1])]);
        assert(lower_text(s) =~= seq![lower_char(s[0]), lower_char(s[1])] + lower_text(rest));
    }
}

/// Hex text of even length, made of hex digits of either case, decodes to
/// bytes whose hex text is the same text in lower case.
pub proof fn lemma_hex_text_lowercase(s: Seq<char>)
    requires
        s.len() % 2 == 0,
        forall|i: int| 0 <= i < s.len() ==> is_hex_char(#[trigger] s[i]),
    ensures
        decode_pairs(encode_utf8(s)) is Bytes,
        hex_text(decode_pairs(encode_utf8(s))->Bytes_0) == lower_text(s),
{
    assert forall|i: int| 0 <= i < s.len() implies (#[trigger] s[i] as u32) < 128 by {
        lemma_hex_char(s[i]);
    }
    lemma_encode_ascii(s);
    lemma_decode_lower(s);
}

/// The error of a reply envelope: none when its `ok` field is `true`, else
/// `device error: ` and its `error` text (`unknown error` when missing).
pub fn envelope_error(ok: Option<bool>, error: Option<&str>) -> (r: Option<String>)
    ensures
        ok == Some(true) ==> r is None,
        ok != Some(true) ==> (r matches Some(m) && m@ == "device error: "@ + (match error {
            Some(e) => e@,
            None => "unknown error"@,
        })),
{
    if ok == Some(true) {
        return None;
    }
    let mut m = "device error: ".to_owned();
    match error {
        Some(e) => m.append(e),
        None => m.append("unknown error"),
    }
    Some(m)
}

/// Retries allowed for one chunk of a download.
pub const CHUNK_RETRIES: u32 = 3;

/// A log download in progress: the bytes received so far and the failed
/// attempts at the current chunk. The next chunk is asked for at the offset
/// of the bytes received.
pub struct Download {
    bytes: Vec<u8>,
    attempt: u32,
}

impl Download {
    pub closed spec fn received(&self) -> Seq<u8> {
        self.bytes@
    }

    pub closed spec fn failures(&self) -> nat {
        self.attempt as nat
    }

    /// At most `CHUNK_RETRIES` failures are ever held.
    #[verifier::type_invariant]
    closed spec fn wf(&self) -> bool {
        self.attempt <= CHUNK_RETRIES
    }

    /// A download that has received nothing.
    pub fn new() -> (r: Download)
        ensures
            r.received() == Seq::<u8>::empty(),
            r.failures() == 0,
    {
        Download { bytes: Vec::new(), attempt: 0 }
    }

    /// Failed attempts at the current chunk.
    pub fn attempts(&self) -> (r: u32)
        ensures
            r == self.failures(),
    {
        self.attempt
    }

    /// Offset of the next chunk: the number of bytes received.
    pub fn offset(&self) -> (r: u64)
        ensures
            r == self.received().len(),
    {
        self.bytes.len() as u64
    }

    /// A chunk arrived: its bytes are appended and the failure count starts
    /// over. Returns whether the logger marked it as the last one.
    pub fn on_chunk(&mut self, data: Vec<u8>, eof: bool) -> (done: bool)
        ensures
            final(self).received() == old(self).received() + data@,
            final(self).failures() == 0,
            done == eof,
    {
        proof {
            use_type_invariant(&*self);
        }
        let mut data = data;
        let mut bytes: Vec<u8> = Vec::new();
        std::mem::swap(&mut bytes, &mut self.bytes);
        bytes.append(&mut data);
        self.bytes = bytes;
        self.attempt = 0;
        eof
    }

    /// The request for the current chunk failed. Returns whether it may be
    /// asked for again: yes while fewer than `CHUNK_RETRIES` retries were
    /// made; the received bytes stay as they were.
    pub fn on_failure(&mut self) -> (retry: bool)
        ensures
            final(self).received() == old(self).received(),
            final(self).failures() <= CHUNK_RETRIES,
            retry == (old(self).failures() < CHUNK_RETRIES),
            retry ==> final(self).failures() == old(self).failures() + 1,
            !retry ==> final(self).failures() == old(self).failures(),
    {
        proof {
            use_type_invariant(&*self);
        }
        if self.attempt < CHUNK_RETRIES {
            self.attempt = self.attempt + 1;
            true
        } else {
            false
        }
    }

    /// The bytes received.
    pub fn into_bytes(self) -> (r: Vec<u8>)
        ensures
            r@ == self.received(),
    {
        self.bytes
    }
}

/// The request for the chunk of `name` at `offset`.
pub fn log_chunk_command(name: &str, offset: u64) -> (r: Command)
    ensures
        r matches Command::LogChunk { name: n, offset: o } && n@ == name@ && o == offset,
{
    Command::LogChunk { name: name.to_owned(), offset }
}

/// The contents of a `log_chunk` reply from its `data` (hex) and `eof`
/// fields: missing data reads as empty and a missing `eof` as the end.
pub fn decode_log_chunk(data: Option<&str>, eof: Option<bool>) -> (r: Result<(Vec<u8>, bool), HexError>)
    requires
        data matches Some(d) ==> (d.spec_bytes().len() % 2 == 0 ==> !(decode_pairs(d.spec_bytes()) is Unsliceable)),
    ensures
        match data {
            None => r matches Ok((v, e)) && v@.len() == 0 && e == (match eof { Some(b) => b, None => true }),
            Some(d) => {
                &&& d.spec_bytes().len() % 2 == 1 ==> r == Err::<(Vec<u8>, bool), HexError>(HexError::OddLength)
                &&& d.spec_bytes().len() % 2 == 0 ==> match decode_pairs(d.spec_bytes()) {
                    HexDecoded::Bytes(v) => r matches Ok((w, e)) && w@ == v && e == (match eof { Some(b) => b, None => true }),
                    _ => r == Err::<(Vec<u8>, bool), HexError>(HexError::BadDigit),
                }
            },
        },
{
    let end = match eof {
        Some(b) => b,
        None => true,
    };
    match data {
        None => Ok((Vec::new(), end)),
        Some(d) => match hex_decode(d) {
            Ok(v) => Ok((v, end)),
            Err(e) => Err(e),
        },
    }
}

/// The `committed` count of an `ota_upload` reply: the low 32 bits of the
/// number, 0 when missing.
pub fn committed_count(committed: Option<u64>) -> (r: u32)
    ensures
        r == (match committed { Some(c) => c % 0x1_0000_0000, None => 0 }),
{
    match committed {
        Some(c) => (c % 0x1_0000_0000) as u32,
        None => 0,
    }
}

/// A name for whether `serde_json` reads `text` as one JSON value.
pub uninterp spec fn json_accepts(text: Seq<char>) -> bool;

/// A name for the JSON value that `serde_json` reads from `text`.
pub uninterp spec fn json_value(text: Seq<char>) -> serde_json::Value;

/// `serde_json::from_str` into a `Value`: the text's value exactly when the
/// text is one JSON value, else the parser's message (whose words are not
/// stated).
#[verifier::external_body]
fn parse_json(text: &str) -> (r: Result<serde_json::Value, String>)
    ensures
        (r is Ok) == json_accepts(text@),
        r matches Ok(v) ==> v == json_value(text@),
{
    serde_json::from_str(text).map_err(|e| e.to_string())
}

/// A name for the member `key` of a JSON value (`Null` when the value is
/// no object or has no such member).
pub uninterp spec fn json_member(v: serde_json::Value, key: Seq<char>) -> serde_json::Value;

/// A name for the boolean a JSON value holds (none for another type).
pub uninterp spec fn json_bool(v: serde_json::Value) -> Option<bool>;

/// A name for the text a JSON value holds (none for another type).
pub uninterp spec fn json_text(v: serde_json::Value) -> Option<Seq<char>>;

/// A name for the unsigned 64-bit number a JSON value holds (none for
/// another type, a negative number or a fraction).
pub uninterp spec fn json_u64(v: serde_json::Value) -> Option<u64>;

/// `Value`'s indexing by a key, cloned: the named member.
#[verifier::external_body]
fn member(v: &serde_json::Value, key: &str) -> (r: serde_json::Value)
    ensures
        r == json_member(*v, key@),
{
    v[key].clone()
}

/// `Value::as_bool`.
#[verifier::external_body]
fn bool_of(v: &serde_json::Value) -> (r: Option<bool>)
    ensures
        r == json_bool(*v),
{
    v.as_bool()
}

/// `Value::as_str`, as an owned text.
#[verifier::external_body]
fn text_in(v: &serde_json::Value) -> (r: Option<String>)
    ensures
        crate::text::text_of(r) == json_text(*v),
{
    v.as_str().map(String::from)
}

/// `Value::as_u64`.
#[verifier::external_body]
fn u64_of(v: &serde_json::Value) -> (r: Option<u64>)
    ensures
        r == json_u64(*v),
{
    v.as_u64()
}

/// The `set_config` request that sends the configuration written in
/// `text`; the parser's message when the text is no JSON value.
pub fn set_config_command(text: &str) -> (r: Result<Command, String>)
    ensures
        (r is Ok) == json_accepts(text@),
        r matches Ok(c) ==> (c matches Command::SetConfig { args } && args == json_value(text@)),
{
    match parse_json(text) {
        Ok(args) => Ok(Command::SetConfig { args }),
        Err(e) => Err(e),
    }
}

/// The fields of a reply line that the client reads: `ok` and `error` of
/// the envelope, the others inside its `data` object. A field that is
/// missing, or holds a value of another JSON type, is `None`.
pub struct ReplyFields {
    pub ok: Option<bool>,
    pub error: Option<String>,
    pub version: Option<String>,
    pub config_loaded: Option<bool>,
    pub uptime_seconds: Option<u64>,
    /// The `data` field of a log chunk: the chunk's bytes in hex.
    pub data_hex: Option<String>,
    pub eof: Option<bool>,
    pub committed: Option<u64>,
    pub active: Option<bool>,
    pub current: Option<String>,
}

/// The fields `f` as read from the reply envelope `v`: `ok` and `error`
/// from the envelope, the others from its `data` member, whose `data`
/// member holds the hex of a log chunk.
pub open spec fn fields_read(f: ReplyFields, v: serde_json::Value) -> bool {
    let d = json_member(v, "data"@);
    &&& f.ok == json_bool(json_member(v, "ok"@))
    &&& crate::text::text_of(f.error) == json_text(json_member(v, "error"@))
    &&& crate::text::text_of(f.version) == json_text(json_member(d, "version"@))
    &&& f.config_loaded == json_bool(json_member(d, "config_loaded"@))
    &&& f.uptime_seconds == json_u64(json_member(d, "uptime_seconds"@))
    &&& crate::text::text_of(f.data_hex) == json_text(json_member(d, "data"@))
    &&& f.eof == json_bool(json_member(d, "eof"@))
    &&& f.committed == json_u64(json_member(d, "committed"@))
    &&& f.active == json_bool(json_member(d, "active"@))
    &&& crate::text::text_of(f.current) == json_text(json_member(d, "current"@))
}

/// The `data` member of the reply envelope in `line`.
pub open spec fn reply_data(line: Seq<char>) -> serde_json::Value {
    json_member(json_value(line), "data"@)
}

/// Parses a reply line and reads its fields and its `data` member.
fn read_reply(line: &str) -> (r: Option<(ReplyFields, serde_json::Value)>)
    ensures
        (r is Some) == json_accepts(line@),
        r matches Some((f, d)) ==> fields_read(f, json_value(line@)) && d == reply_data(line@),
{
    let v = match parse_json(line) {
        Ok(v) => v,
        Err(_) => return None,
    };
    let d = member(&v, "data");
    let f = ReplyFields {
        ok: bool_of(&member(&v, "ok")),
        error: text_in(&member(&v, "error")),
        version: text_in(&member(&d, "version")),
        config_loaded: bool_of(&member(&d, "config_loaded")),
        uptime_seconds: u64_of(&member(&d, "uptime_seconds")),
        data_hex: text_in(&member(&d, "data")),
        eof: bool_of(&member(&d, "eof")),
        committed: u64_of(&member(&d, "committed")),
        active: bool_of(&member(&d, "active")),
        current: text_in(&member(&d, "current")),
    };
    Some((f, d))
}

/// A reply decoded by the command it answers. The replies whose contents
/// are records (configuration, frames, CAN nodes, positions, readings,
/// resources, the log list, the firmware-update status) carry none here:
/// those are read from the reply's `data` value.
pub enum Reply {
    Pong,
    Version(String),
    Status { config_loaded: bool },
    Config,
    SetConfigOk,
    Frames,
    CanNodes,
    Uptime(u64),
    Gps,
    Imu,
    Resources,
    Logs,
    LogChunk { data: Vec<u8>, eof: bool },
    LogStatus { active: bool, current: String },
    SetLoggingOk,
    NextLogOk,
    RebootOk,
    OtaUpload { committed: u32 },
    OtaFlashOk,
    OtaStatus,
}

/// Why a reply gives no answer to its command.
pub enum ReplyError {
    /// The envelope is not `ok`: `device error: ` and its message.
    Device(String),
    /// A `version` reply without its `version` text.
    MissingVersion,
    /// An `uptime` reply without its `uptime_seconds` number.
    MissingUptime,
    /// A `log_chunk` reply whose hex does not decode.
    Hex(HexError),
}

/// The error text of an envelope that is not `ok`.
pub open spec fn device_error_text(error: Option<String>) -> Seq<char> {
    "device error: "@ + match error {
        Some(e) => e@,
        None => "unknown error"@,
    }
}

/// Whether decoding the reply `f` to `cmd` comes to hex that splits a
/// character: the replies that `decode_reply` does not take.
pub open spec fn hex_would_split(cmd: Command, f: ReplyFields) -> bool {
    &&& f.ok == Some(true)
    &&& cmd is LogChunk
    &&& f.data_hex matches Some(d) && encode_utf8(d@).len() % 2 == 0 && decode_pairs(encode_utf8(d@)) is Unsliceable
}

/// The end-of-file flag of a chunk: a missing one means the end.
pub open spec fn chunk_end(eof: Option<bool>) -> bool {
    match eof {
        Some(b) => b,
        None => true,
    }
}

/// What a `log_chunk` reply with hex `data_hex` and flag `eof` decodes to.
pub open spec fn chunk_decoded(data_hex: Option<String>, eof: Option<bool>, r: Result<Reply, ReplyError>) -> bool {
    match data_hex {
        None => r matches Ok(Reply::LogChunk { data, eof: e }) && data@.len() == 0 && e == chunk_end(eof),
        Some(d) => if encode_utf8(d@).len() % 2 == 1 {
            r matches Err(ReplyError::Hex(HexError::OddLength))
        } else {
            match decode_pairs(encode_utf8(d@)) {
                HexDecoded::Bytes(v) => r matches Ok(Reply::LogChunk { data, eof: e }) && data@ == v && e
                    == chunk_end(eof),
                _ => r matches Err(ReplyError::Hex(HexError::BadDigit)),
            }
        },
    }
}

/// What the reply `f` to `cmd` decodes to: the envelope's error first;
/// then, by the command, the missing `version` and `uptime_seconds` are
/// errors, `config_loaded` and `active` default to false, `current` to
/// empty text, and `committed` keeps its low 32 bits (0 when missing).
pub open spec fn reply_decoded(cmd: Command, f: ReplyFields, r: Result<Reply, ReplyError>) -> bool {
    if f.ok != Some(true) {
        r matches Err(ReplyError::Device(m)) && m@ == device_error_text(f.error)
    } else {
        match cmd {
            Command::Ping => r matches Ok(Reply::Pong),
            Command::Version => match f.version {
                Some(v) => r matches Ok(Reply::Version(s)) && s@ == v@,
                None => r matches Err(ReplyError::MissingVersion),
            },
            Command::Status => r matches Ok(Reply::Status { config_loaded }) && config_loaded == (f.config_loaded
                == Some(true)),
            Command::GetConfig => r matches Ok(Reply::Config),
            Command::SetConfig { .. } => r matches Ok(Reply::SetConfigOk),
            Command::Frames => r matches Ok(Reply::Frames),
            Command::CanNodes => r matches Ok(Reply::CanNodes),
            Command::Uptime => match f.uptime_seconds {
                Some(u) => r matches Ok(Reply::Uptime(v)) && v == u,
                None => r matches Err(ReplyError::MissingUptime),
            },
            Command::Gps => r matches Ok(Reply::Gps),
            Command::Imu => r matches Ok(Reply::Imu),
            Command::Resources => r matches Ok(Reply::Resources),
            Command::ListLogs => r matches Ok(Reply::Logs),
            Command::LogChunk { .. } => chunk_decoded(f.data_hex, f.eof, r),
            Command::LogStatus => r matches Ok(Reply::LogStatus { active, current }) && active == (f.active
                == Some(true)) && current@ == (match f.current {
                Some(c) => c@,
                None => Seq::<char>::empty(),
            }),
            Command::SetLogging { .. } => r matches Ok(Reply::SetLoggingOk),
            Command::NextLog => r matches Ok(Reply::NextLogOk),
            Command::Reboot => r matches Ok(Reply::RebootOk),
            Command::OtaUpload { .. } => r matches Ok(Reply::OtaUpload { committed }) && committed == (match f.committed {
                Some(c) => c % 0x1_0000_0000,
                None => 0,
            }),
            Command::OtaFlash { .. } => r matches Ok(Reply::OtaFlashOk),
            Command::OtaStatus => r matches Ok(Reply::OtaStatus),
        }
    }
}

fn text_ref(t: &Option<String>) -> (r: Option<&str>)
    ensures
        r matches Some(s) ==> t matches Some(u) && s@ == u@,
        r is None ==> t is None,
{
    match t {
        Some(s) => Some(s.as_str()),
        None => None,
    }
}

/// Decodes the reply `f` to `cmd`.
pub fn decode_reply(cmd: &Command, f: &ReplyFields) -> (r: Result<Reply, ReplyError>)
    requires
        !hex_would_split(*cmd, *f),
    ensures
        reply_decoded(*cmd, *f, r),
{
    if let Some(m) = envelope_error(f.ok, text_ref(&f.error)) {
        return Err(ReplyError::Device(m));
    }
    match cmd {
        Command::Ping => Ok(Reply::Pong),
        Command::Version => match &f.version {
            Some(v) => Ok(Reply::Version(v.clone())),
            None => Err(ReplyError::MissingVersion),
        },
        Command::Status => Ok(Reply::Status { config_loaded: f.config_loaded == Some(true) }),
        Command::GetConfig => Ok(Reply::Config),
        Command::SetConfig { .. } => Ok(Reply::SetConfigOk),
        Command::Frames => Ok(Reply::Frames),
        Command::CanNodes => Ok(Reply::CanNodes),
        Command::Uptime => match f.uptime_seconds {
            Some(u) => Ok(Reply::Uptime(u)),
            None => Err(ReplyError::MissingUptime),
        },
        Command::Gps => Ok(Reply::Gps),
        Command::Imu => Ok(Reply::Imu),
        Command::Resources => Ok(Reply::Resources),
        Command::ListLogs => Ok(Reply::Logs),
        Command::LogChunk { .. } => match decode_log_chunk(text_ref(&f.data_hex), f.eof) {
            Ok((data, eof)) => Ok(Reply::LogChunk { data, eof }),
            Err(e) => Err(ReplyError::Hex(e)),
        },
        Command::LogStatus => {
            let current = match &f.current {
                Some(c) => c.clone(),
                None => String::new(),
            };
            Ok(Reply::LogStatus { active: f.active == Some(true), current })
        },
        Command::SetLogging { .. } => Ok(Reply::SetLoggingOk),
        Command::NextLog => Ok(Reply::NextLogOk),
        Command::Reboot => Ok(Reply::RebootOk),
        Command::OtaUpload { .. } => Ok(Reply::OtaUpload { committed: committed_count(f.committed) }),
        Command::OtaFlash { .. } => Ok(Reply::OtaFlashOk),
        Command::OtaStatus => Ok(Reply::OtaStatus),
    }
}

/// What one line read from the logger gives a pending request.
pub enum LineReply {
    /// No JSON value: the logger's debug output, skipped.
    Skipped,
    /// A `log_chunk` reply whose hex, read two bytes at a time, splits a
    /// character (the text is handed back whole).
    SplitHex(String),
    /// The decoded reply and the envelope's `data` value.
    Decoded(Result<Reply, ReplyError>, serde_json::Value),
}

/// Reads the line `line` as the reply to `cmd`.
pub fn decode_line(cmd: &Command, line: &str) -> (r: LineReply)
    ensures
        (r is Skipped) == !json_accepts(line@),
        json_accepts(line@) ==> exists|f: ReplyFields|
            #[trigger] fields_read(f, json_value(line@)) && if hex_would_split(*cmd, f) {
                r matches LineReply::SplitHex(t) && f.data_hex matches Some(d) && t@ == d@
            } else {
                r matches LineReply::Decoded(x, _) && reply_decoded(*cmd, f, x)
            },
        r matches LineReply::Decoded(_, d) ==> d == reply_data(line@),
{
    let (f, data) = match read_reply(line) {
        Some(p) => p,
        None => return LineReply::Skipped,
    };
    if f.ok == Some(true) && matches!(cmd, Command::LogChunk { .. }) {
        if let Some(d) = &f.data_hex {
            if hex_splits_a_char(d.as_str()) {
                return LineReply::SplitHex(d.clone());
            }
        }
    }
    LineReply::Decoded(decode_reply(cmd, &f), data)
}

/// Bytes of firmware per `OtaUpload` request (hex-encoded on the wire, so
/// twice as many characters).
pub const UPLOAD_CHUNK: usize = 2048;

/// The `i`-th upload request of a firmware image: its offset and the hex of
/// at most `UPLOAD_CHUNK` bytes from there.
pub fn ota_upload_command(image: &Vec<u8>, i: usize) -> (r: Command)
    requires
        i * UPLOAD_CHUNK < image@.len(),
    ensures
        r matches Command::OtaUpload { offset, data } && offset == i * UPLOAD_CHUNK && data@ == hex_text(
            image@.subrange(
                (i * UPLOAD_CHUNK) as int,
                if (i + 1) * UPLOAD_CHUNK < image@.len() { (i + 1) * UPLOAD_CHUNK } else { image@.len() as int },
            ),
        ),
{
    let n = image.len();
    assert(i * UPLOAD_CHUNK < n);
    let start = i * UPLOAD_CHUNK;
    let end = if image.len() - start > UPLOAD_CHUNK { start + UPLOAD_CHUNK } else { image.len() };
    let mut chunk: Vec<u8> = Vec::new();
    let mut k = start;
    while k < end
        invariant
            start <= k <= end,
            end <= image@.len(),
            chunk@ == image@.subrange(start as int, k as int),
        decreases end - k,
    {
        chunk.push(image[k]);
        k += 1;
        assert(chunk@ =~= image@.subrange(start as int, k as int));
    }
    Command::OtaUpload { offset: start as u64, data: hex_encode(chunk.as_slice()) }
}

/// The number of upload requests for an image of `len` bytes: one for
/// each `UPLOAD_CHUNK` bytes begun.
pub fn upload_chunk_count(len: usize) -> (r: usize)
    ensures
        r == (len + UPLOAD_CHUNK - 1) / (UPLOAD_CHUNK as int),
        forall|i: int| 0 <= i < r ==> #[trigger] (i * UPLOAD_CHUNK) < len,
        len <= r * UPLOAD_CHUNK,
{
    let r = len / UPLOAD_CHUNK + if len % UPLOAD_CHUNK == 0 { 0 } else { 1 };
    assert forall|i: int| 0 <= i < r implies #[trigger] (i * UPLOAD_CHUNK) < len by {
        assert(i * UPLOAD_CHUNK <= (r - 1) * UPLOAD_CHUNK) by (nonlinear_arith)
            requires
                0 <= i < r,
        ;
    }
    r
}

/// The `ota_flash` request that announces an image of `len` bytes with
/// checksum `crc` for `node`: the size keeps the low 32 bits of the
/// length.
pub fn ota_flash_command(node: u8, len: usize, crc: u32) -> (r: Command)
    ensures
        r matches Command::OtaFlash { node: n, size, crc: c } && n == node && size == (len as int) % 0x1_0000_0000 && c == crc,
{
    let size = (len as u64 % 0x1_0000_0000) as u32;
    Command::OtaFlash { node, size, crc }
}

/// The USB speed as the sysfs file holding it reads: its text without the
/// surrounding white space.
pub fn usb_speed_text(contents: &str) -> (r: String)
    ensures
        r@ == crate::text::trim(contents@),
{
    crate::text::string_of(&crate::text::trimmed_chars(contents))
}

/// What the poll loop does with a control command sent by the interface.
#[derive(Clone, Copy, PartialEq, Eq, Structural, Debug)]
pub enum ControlRoute {
    /// Ping the logger and record whether it answered.
    Ping,
    /// Send the command on; a failure is only logged.
    Forward,
    /// Not a control command: only logged.
    Unhandled,
}

/// Routing of the commands that arrive on the control channel.
pub fn control_route(cmd: &Command) -> (r: ControlRoute)
    ensures
        r == (match cmd {
            Command::Ping => ControlRoute::Ping,
            Command::SetLogging { .. } | Command::NextLog | Command::Reboot => ControlRoute::Forward,
            _ => ControlRoute::Unhandled,
        }),
{
    match cmd {
        Command::Ping => ControlRoute::Ping,
        Command::SetLogging { .. } | Command::NextLog | Command::Reboot => ControlRoute::Forward,
        _ => ControlRoute::Unhandled,
    }
}

/// USB product id of the ROM download (bootloader) mode.
pub const ROM_DOWNLOAD_PID: u16 = 0x1001;

/// The logger's port: the first Espressif USB port that is not in ROM
/// download mode.
pub fn find_port(ports: &Vec<PortInfo>) -> (r: Option<String>)
    ensures
        match first_usb_match(ports@, ESPRESSIF_VID, ROM_DOWNLOAD_PID, false) {
            Some(i) => r == Some(ports@[i].name),
            None => r is None,
        },
        r matches Some(name) ==> exists|i: int|
            #![trigger ports@[i]]
            0 <= i < ports@.len() && ports@[i].name == name && (ports@[i].usb_ids matches Some((v, p)) && v
                == 0x303a && p != 0x1001) && forall|j: int|
                0 <= j < i ==> !(#[trigger] ports@[j].usb_ids matches Some((v, p)) && v == 0x303a && p != 0x1001),
        r is None ==> forall|j: int|
            0 <= j < ports@.len() ==> !(#[trigger] ports@[j].usb_ids matches Some((v, p)) && v == 0x303a && p != 0x1001),
{
    select_port(ports, ESPRESSIF_VID, ROM_DOWNLOAD_PID, false)
}

/// The text after the last `/` of a port path (all of it without one).
pub open spec fn last_segment(p: Seq<char>) -> Seq<char>
    decreases p.len(),
{
    if p.len() == 0 {
        p
    } else if p.last() == '/' {
        Seq::empty()
    } else {
        last_segment(p.drop_last()).push(p.last())
    }
}

/// The sysfs file holding the USB link speed (Mbit/s) of a tty port.
pub open spec fn speed_path(port: Seq<char>) -> Seq<char> {
    "/sys/class/tty/"@ + last_segment(port) + "/device/../speed"@
}

/// Path of the sysfs file with the USB speed of the port `port_name`.
pub fn usb_speed_path(port_name: &str) -> (r: String)
    ensures
        r@ == speed_path(port_name@),
{
    let cs = crate::text::chars_of(port_name);
    let mut start: usize = 0;
    let mut i: usize = 0;
    while i < cs.len()
        invariant
            cs@ == port_name@,
            start <= i <= cs@.len(),
            last_segment(port_name@.take(i as int)) == port_name@.subrange(start as int, i as int),
        decreases cs@.len() - i,
    {
        assert(port_name@.take(i + 1).drop_last() =~= port_name@.take(i as int));
        if cs[i] == '/' {
            start = i + 1;
            assert(port_name@.subrange(start as int, i + 1) =~= Seq::<char>::empty());
        } else {
            assert(port_name@.subrange(start as int, i + 1) =~= port_name@.subrange(start as int, i as int).push(cs[i as int]));
        }
        i += 1;
    }
    assert(port_name@.take(cs@.len() as int) =~= port_name@);
    let mut out = String::new();
    out.append("/sys/class/tty/");
    let mut k = start;
    while k < cs.len()
        invariant
            cs@ == port_name@,
            start <= k <= cs@.len(),
            out@ == "/sys/class/tty/"@ + port_name@.subrange(start as int, k as int),
        decreases cs@.len() - k,
    {
        push_char(&mut out, cs[k]);
        k += 1;
        assert(out@ =~= "/sys/class/tty/"@ + port_name@.subrange(start as int, k as int));
    }
    out.append("/device/../speed");
    out
}

} // verus!
