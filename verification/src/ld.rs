//! Byte layout of the MoTeC `.ld` log format written by the exporter: a
//! fixed header, one event block, a linked list of channel headers and the
//! little-endian sample data of every channel, one after the other.

use vstd::prelude::*;
use vstd::utf8::encode_utf8;
use crate::bytes::{le16, le16_signed, le32, splice, zeros, read_le16, read_le32, lemma_le16_roundtrip, lemma_le32_roundtrip};

verus! {

broadcast use {crate::bytes::lemma_splice_len, crate::bytes::lemma_splice_read};

/// Size of the file header.
pub const LOG_HEADER_SIZE: usize = 1762;
/// Size of the event block that follows the file header.
pub const EVENT_SIZE: usize = 1154;
/// Size of one channel header.
pub const CHANNEL_HEADER_SIZE: usize = 124;
/// Channel headers past this many would overflow the 16-bit channel ids.
pub const MAX_CHANNELS: usize = 57536;

/// One channel of the file: names, units, rate and its samples, each sample
/// given as the bit pattern of an IEEE-754 single (`f32::to_bits`).
pub struct LdChannel {
    pub name: String,
    pub short_name: String,
    pub units: String,
    pub freq_hz: u16,
    pub samples: Vec<u32>,
}

/// Everything the `.ld` writer puts in a file.
pub struct LdDocument {
    pub driver: String,
    pub vehicle: String,
    pub venue: String,
    pub comment: String,
    pub event_name: String,
    pub event_session: String,
    pub event_comment: String,
    /// `dd/mm/yyyy`
    pub date: String,
    /// `HH:MM:SS`
    pub time: String,
    pub channels: Vec<LdChannel>,
}

/// What the writer reads of a channel.
pub struct LdChannelView {
    pub name: Seq<char>,
    pub short_name: Seq<char>,
    pub units: Seq<char>,
    pub freq_hz: u16,
    pub samples: Seq<u32>,
}

/// What the writer reads of a document.
pub struct LdDocView {
    pub driver: Seq<char>,
    pub vehicle: Seq<char>,
    pub venue: Seq<char>,
    pub comment: Seq<char>,
    pub event_name: Seq<char>,
    pub event_session: Seq<char>,
    pub event_comment: Seq<char>,
    pub date: Seq<char>,
    pub time: Seq<char>,
    pub channels: Seq<LdChannelView>,
}

impl View for LdChannel {
    type V = LdChannelView;

    open spec fn view(&self) -> LdChannelView {
        LdChannelView {
            name: self.name@,
            short_name: self.short_name@,
            units: self.units@,
            freq_hz: self.freq_hz,
            samples: self.samples@,
        }
    }
}

impl View for LdDocument {
    type V = LdDocView;

    open spec fn view(&self) -> LdDocView {
        LdDocView {
            driver: self.driver@,
            vehicle: self.vehicle@,
            venue: self.venue@,
            comment: self.comment@,
            event_name: self.event_name@,
            event_session: self.event_session@,
            event_comment: self.event_comment@,
            date: self.date@,
            time: self.time@,
            channels: self.channels@.map_values(|c: LdChannel| c@),
        }
    }
}

/// The UTF-8 bytes of `s` cut to at most `width` bytes.
pub open spec fn text_field(s: Seq<char>, width: int) -> Seq<u8> {
    let b = encode_utf8(s);
    if b.len() <= width { b } else { b.take(width) }
}

/// Offset of the first channel header (0 when there is no channel).
pub open spec fn first_channel_pos(n: nat) -> int {
    if n > 0 { (LOG_HEADER_SIZE + EVENT_SIZE) as int } else { 0 }
}

/// Offset of the first channel's sample data (0 when there is no channel).
pub open spec fn first_data_pos(n: nat) -> int {
    if n > 0 { LOG_HEADER_SIZE + EVENT_SIZE + n * CHANNEL_HEADER_SIZE } else { 0 }
}

/// Number of samples of all the given channels together.
pub open spec fn total_samples(chs: Seq<LdChannelView>) -> nat
    decreases chs.len(),
{
    if chs.len() == 0 { 0 } else { total_samples(chs.drop_last()) + chs.last().samples.len() }
}

/// Offset of the sample data of channel `i`.
pub open spec fn data_pos(chs: Seq<LdChannelView>, i: int) -> int {
    first_data_pos(chs.len()) + 4 * total_samples(chs.take(i))
}

/// Offset of the header of channel `i`.
pub open spec fn channel_pos(i: int) -> int {
    (LOG_HEADER_SIZE + EVENT_SIZE) as int + i * CHANNEL_HEADER_SIZE
}

/// The header link to the previous channel (0 for the first).
pub open spec fn prev_pos(i: int) -> int {
    if i == 0 { 0 } else { channel_pos(i - 1) }
}

/// The header link to the next channel (0 for the last).
pub open spec fn next_pos(n: int, i: int) -> int {
    if i + 1 < n { channel_pos(i + 1) } else { 0 }
}

/// The file header.
#[verifier::opaque]
pub open spec fn header_image(d: LdDocView) -> Seq<u8> {
    let n = d.channels.len();
    let b = zeros(LOG_HEADER_SIZE as nat);
    let b = splice(b, 0, le32(64));
    let b = splice(b, 8, le32(first_channel_pos(n)));
    let b = splice(b, 12, le32(first_data_pos(n)));
    let b = splice(b, 36, le32(LOG_HEADER_SIZE as int));
    let b = splice(b, 66, le32(1_000_000));
    let b = splice(b, 70, le32(12007));
    let b = splice(b, 74, text_field("ADL"@, 8));
    let b = splice(b, 82, le16(420));
    let b = splice(b, 84, le16(128));
    let b = splice(b, 86, le32(n as int));
    let b = splice(b, 94, text_field(d.date, 16));
    let b = splice(b, 126, text_field(d.time, 16));
    let b = splice(b, 158, text_field(d.driver, 64));
    let b = splice(b, 222, text_field(d.vehicle, 64));
    let b = splice(b, 350, text_field(d.venue, 64));
    splice(b, 1572, text_field(d.comment, 64))
}

/// The event block.
#[verifier::opaque]
pub open spec fn event_image(d: LdDocView) -> Seq<u8> {
    let b = zeros(EVENT_SIZE as nat);
    let b = splice(b, 0, text_field(d.event_name, 64));
    let b = splice(b, 64, text_field(d.event_session, 64));
    let b = splice(b, 128, text_field(d.event_comment, 1024));
    splice(b, 1152, le16(0))
}

/// The header of channel `i`.
#[verifier::opaque]
pub open spec fn channel_image(chs: Seq<LdChannelView>, i: int) -> Seq<u8> {
    let ch = chs[i];
    let b = zeros(CHANNEL_HEADER_SIZE as nat);
    let b = splice(b, 0, le32(prev_pos(i)));
    let b = splice(b, 4, le32(next_pos(chs.len() as int, i)));
    let b = splice(b, 8, le32(data_pos(chs, i)));
    let b = splice(b, 12, le32(ch.samples.len() as int));
    let b = splice(b, 16, le16(8000 + i));
    let b = splice(b, 18, le16(7));
    let b = splice(b, 20, le16(4));
    let b = splice(b, 22, le16(ch.freq_hz as int));
    let b = splice(b, 24, le16_signed(0));
    let b = splice(b, 26, le16_signed(1));
    let b = splice(b, 28, le16_signed(1));
    let b = splice(b, 30, le16_signed(0));
    let b = splice(b, 32, text_field(ch.name, 32));
    let b = splice(b, 64, text_field(ch.short_name, 8));
    splice(b, 72, text_field(ch.units, 12))
}

/// The headers of channels `0..k`, one after the other.
pub open spec fn channel_images(chs: Seq<LdChannelView>, k: int) -> Seq<u8>
    decreases k,
{
    if k <= 0 { Seq::empty() } else { channel_images(chs, k - 1) + channel_image(chs, k - 1) }
}

/// Samples as consecutive little-endian words.
pub open spec fn samples_le(s: Seq<u32>) -> Seq<u8>
    decreases s.len(),
{
    if s.len() == 0 { Seq::empty() } else { samples_le(s.drop_last()) + le32(s.last() as int) }
}

/// Sample data of all the given channels, one channel after the other.
pub open spec fn sample_data(chs: Seq<LdChannelView>) -> Seq<u8>
    decreases chs.len(),
{
    if chs.len() == 0 { Seq::empty() } else { sample_data(chs.drop_last()) + samples_le(chs.last().samples) }
}

/// The whole file.
pub open spec fn ld_bytes(d: LdDocView) -> Seq<u8> {
    header_image(d) + event_image(d) + channel_images(d.channels, d.channels.len() as int)
        + sample_data(d.channels)
}

/// A document the writer can lay out: its channel ids and every offset fit
/// their fields.
pub open spec fn writable(d: LdDocView) -> bool {
    &&& d.channels.len() <= MAX_CHANNELS
    &&& first_data_pos(d.channels.len()) + 4 * total_samples(d.channels) <= u32::MAX
}

/// Writes `v` little-endian at `buf[at..at + 4]`.
pub fn put_u32(buf: &mut Vec<u8>, at: usize, v: u32)
    requires
        at + 4 <= old(buf)@.len(),
    ensures
        final(buf)@ == splice(old(buf)@, at as int, le32(v as int)),
{
    let _len = buf.len();
    buf[at] = (v % 256) as u8;
    buf[at + 1] = ((v / 256) % 256) as u8;
    buf[at + 2] = ((v / 65536) % 256) as u8;
    buf[at + 3] = ((v / 16777216) % 256) as u8;
    reveal(splice);
    assert(buf@ =~= splice(old(buf)@, at as int, le32(v as int)));
}

/// Writes `v` little-endian at `buf[at..at + 2]`.
pub fn put_u16(buf: &mut Vec<u8>, at: usize, v: u16)
    requires
        at + 2 <= old(buf)@.len(),
    ensures
        final(buf)@ == splice(old(buf)@, at as int, le16(v as int)),
{
    let _len = buf.len();
    buf[at] = (v % 256) as u8;
    buf[at + 1] = ((v / 256) % 256) as u8;
    reveal(splice);
    assert(buf@ =~= splice(old(buf)@, at as int, le16(v as int)));
}

/// Writes `v` as a two's-complement little-endian value at `buf[at..at + 2]`.
pub fn put_i16(buf: &mut Vec<u8>, at: usize, v: i16)
    requires
        at + 2 <= old(buf)@.len(),
    ensures
        final(buf)@ == splice(old(buf)@, at as int, le16_signed(v as int)),
{
    let u: u16 = if v < 0 { (v as i32 + 65536) as u16 } else { v as u16 };
    put_u16(buf, at, u);
}

/// Writes `s` into `buf[at..at + len]`, cut to `len` bytes; the rest of the
/// field keeps what the buffer held (zeros in a fresh buffer).
pub fn put_str(buf: &mut Vec<u8>, at: usize, len: usize, s: &str)
    requires
        at + text_field(s@, len as int).len() <= old(buf)@.len(),
    ensures
        final(buf)@ == splice(old(buf)@, at as int, text_field(s@, len as int)),
{
    let bytes = s.as_bytes();
    let n = if bytes.len() < len { bytes.len() } else { len };
    reveal(splice);
    let ghost field = text_field(s@, len as int);
    assert(field =~= bytes@.take(n as int));
    let len = buf.len();
    let mut k: usize = 0;
    while k < n
        invariant
            k <= n,
            len == buf@.len(),
            buf@.len() == old(buf)@.len(),
            n <= bytes@.len(),
            at + n <= buf@.len(),
            field == bytes@.take(n as int),
            buf@ =~= splice(old(buf)@, at as int, bytes@.take(k as int)),
        decreases n - k,
    {
        buf[at + k] = bytes[k];
        k += 1;
        reveal(splice);
        assert(buf@ =~= splice(old(buf)@, at as int, bytes@.take(k as int)));
    }
}


proof fn lemma_total_samples_prefix(chs: Seq<LdChannelView>, i: int)
    requires
        0 <= i < chs.len(),
    ensures
        total_samples(chs.take(i + 1)) == total_samples(chs.take(i)) + chs[i].samples.len(),
        sample_data(chs.take(i + 1)) == sample_data(chs.take(i)) + samples_le(chs[i].samples),
{
    assert(chs.take(i + 1).drop_last() =~= chs.take(i));
}

proof fn lemma_total_samples_monotonic(chs: Seq<LdChannelView>, i: int)
    requires
        0 <= i <= chs.len(),
    ensures
        total_samples(chs.take(i)) <= total_samples(chs),
    decreases chs.len() - i,
{
    if i < chs.len() {
        lemma_total_samples_prefix(chs, i);
        lemma_total_samples_monotonic(chs, i + 1);
    } else {
        assert(chs.take(i) =~= chs);
    }
}

/// Appends `samples` to `out` as little-endian words.
fn push_samples(out: &mut Vec<u8>, samples: &Vec<u32>)
    ensures
        final(out)@ == old(out)@ + samples_le(samples@),
{
    let ns = samples.len();
    let mut j: usize = 0;
    assert(samples@.take(0) =~= Seq::<u32>::empty());
    assert(old(out)@ + samples_le(samples@.take(0)) =~= old(out)@);
    while j < ns
        invariant
            j <= ns,
            ns == samples@.len(),
            out@ =~= old(out)@ + samples_le(samples@.take(j as int)),
        decreases ns - j,
    {
        let v = samples[j];
        out.push((v % 256) as u8);
        out.push(((v / 256) % 256) as u8);
        out.push(((v / 65536) % 256) as u8);
        out.push(((v / 16777216) % 256) as u8);
        assert(samples@.take(j + 1).drop_last() =~= samples@.take(j as int));
        j += 1;
        assert(out@ =~= old(out)@ + samples_le(samples@.take(j as int)));
    }
    assert(samples@.take(ns as int) =~= samples@);
}

impl LdChannel {
    /// Header of this channel when it stands at index `i` of `chs`.
    fn header_bytes(&self, i: usize, n: usize, data_cursor: u32) -> (r: Vec<u8>)
        requires
            0 <= i < n,
            n <= MAX_CHANNELS,
            self.samples.len() <= u32::MAX,
        ensures
            r@ == {
                let b = zeros(CHANNEL_HEADER_SIZE as nat);
                let b = splice(b, 0, le32(prev_pos(i as int)));
                let b = splice(b, 4, le32(next_pos(n as int, i as int)));
                let b = splice(b, 8, le32(data_cursor as int));
                let b = splice(b, 12, le32(self.samples.len() as int));
                let b = splice(b, 16, le16(8000 + i));
                let b = splice(b, 18, le16(7));
                let b = splice(b, 20, le16(4));
                let b = splice(b, 22, le16(self.freq_hz as int));
                let b = splice(b, 24, le16_signed(0));
                let b = splice(b, 26, le16_signed(1));
                let b = splice(b, 28, le16_signed(1));
                let b = splice(b, 30, le16_signed(0));
                let b = splice(b, 32, text_field(self.name@, 32));
                let b = splice(b, 64, text_field(self.short_name@, 8));
                splice(b, 72, text_field(self.units@, 12))
            },
    {
        let first = (LOG_HEADER_SIZE + EVENT_SIZE) as u32;
        let prevpos: u32 = if i == 0 { 0 } else { first + ((i - 1) * CHANNEL_HEADER_SIZE) as u32 };
        let nextpos: u32 = if i + 1 < n { first + ((i + 1) * CHANNEL_HEADER_SIZE) as u32 } else { 0 };
        let mut b = vec![0u8; CHANNEL_HEADER_SIZE];
        assert(b@ =~= zeros(CHANNEL_HEADER_SIZE as nat));
        put_u32(&mut b, 0, prevpos);
        put_u32(&mut b, 4, nextpos);
        put_u32(&mut b, 8, data_cursor);
        put_u32(&mut b, 12, self.samples.len() as u32);
        put_u16(&mut b, 16, 8000 + i as u16);
        put_u16(&mut b, 18, 0x0007);
        put_u16(&mut b, 20, 4);
        put_u16(&mut b, 22, self.freq_hz);
        put_i16(&mut b, 24, 0);
        put_i16(&mut b, 26, 1);
        put_i16(&mut b, 28, 1);
        put_i16(&mut b, 30, 0);
        put_str(&mut b, 32, 32, self.name.as_str());
        put_str(&mut b, 64, 8, self.short_name.as_str());
        put_str(&mut b, 72, 12, self.units.as_str());
        b
    }
}

impl LdDocument {
    fn header_bytes(&self) -> (r: Vec<u8>)
        requires
            writable(self@),
        ensures
            r@ == header_image(self@),
    {
        let n = self.channels.len();
        let numchannels = n as u32;
        let firstchannelpos: u32 = if n > 0 { (LOG_HEADER_SIZE + EVENT_SIZE) as u32 } else { 0 };
        let firstchanneldatapos: u32 = if n > 0 {
            firstchannelpos + numchannels * CHANNEL_HEADER_SIZE as u32
        } else {
            0
        };
        reveal(header_image);
        let mut b = vec![0u8; LOG_HEADER_SIZE];
        assert(b@ =~= zeros(LOG_HEADER_SIZE as nat));
        put_u32(&mut b, 0, 64);
        put_u32(&mut b, 8, firstchannelpos);
        put_u32(&mut b, 12, firstchanneldatapos);
        put_u32(&mut b, 36, LOG_HEADER_SIZE as u32);
        put_u32(&mut b, 66, 1_000_000);
        put_u32(&mut b, 70, 12007);
        put_str(&mut b, 74, 8, "ADL");
        put_u16(&mut b, 82, 420);
        put_u16(&mut b, 84, 128);
        put_u32(&mut b, 86, numchannels);
        put_str(&mut b, 94, 16, self.date.as_str());
        put_str(&mut b, 126, 16, self.time.as_str());
        put_str(&mut b, 158, 64, self.driver.as_str());
        put_str(&mut b, 222, 64, self.vehicle.as_str());
        put_str(&mut b, 350, 64, self.venue.as_str());
        put_str(&mut b, 1572, 64, self.comment.as_str());
        b
    }

    fn event_bytes(&self) -> (r: Vec<u8>)
        ensures
            r@ == event_image(self@),
    {
        reveal(event_image);
        let mut b = vec![0u8; EVENT_SIZE];
        assert(b@ =~= zeros(EVENT_SIZE as nat));
        put_str(&mut b, 0, 64, self.event_name.as_str());
        put_str(&mut b, 64, 64, self.event_session.as_str());
        put_str(&mut b, 128, 1024, self.event_comment.as_str());
        put_u16(&mut b, 1152, 0);
        b
    }

    /// The `.ld` file for this document.
    pub fn to_bytes(&self) -> (r: Vec<u8>)
        requires
            writable(self@),
        ensures
            r@ == ld_bytes(self@),
    {
        let ghost chs = self@.channels;
        let n = self.channels.len();
        let mut buf = self.header_bytes();
        let mut ev = self.event_bytes();
        buf.append(&mut ev);
        let data_start: u32 = if n > 0 {
            (LOG_HEADER_SIZE + EVENT_SIZE + n * CHANNEL_HEADER_SIZE) as u32
        } else {
            0
        };
        let mut sample_bytes: Vec<u8> = Vec::new();
        let mut data_cursor = data_start;
        let mut i: usize = 0;
        assert(chs.take(0) =~= Seq::<LdChannelView>::empty());
        while i < n
            invariant
                writable(self@),
                chs == self@.channels,
                n == self.channels@.len(),
                n == chs.len(),
                i <= n,
                data_start == first_data_pos(n as nat),
                buf@ == header_image(self@) + event_image(self@) + channel_images(chs, i as int),
                sample_bytes@ == sample_data(chs.take(i as int)),
                data_cursor == data_pos(chs, i as int),
            decreases n - i,
        {
            let ch = &self.channels[i];
            proof {
                lemma_total_samples_prefix(chs, i as int);
                lemma_total_samples_monotonic(chs, i as int + 1);
            }
            let mut h = ch.header_bytes(i, n, data_cursor);
            assert(h@ == channel_image(chs, i as int)) by {
                reveal(channel_image);
            }
            buf.append(&mut h);
            let ns = ch.samples.len();
            push_samples(&mut sample_bytes, &ch.samples);
            data_cursor = data_cursor + (ns as u32) * 4;
            i += 1;
        }
        assert(chs.take(n as int) =~= chs);
        buf.append(&mut sample_bytes);
        buf
    }
}


proof fn lemma_text_field_len(s: Seq<char>, width: int)
    requires
        0 <= width,
    ensures
        text_field(s, width).len() <= width,
{
}

/// The fields of one channel header, read back.
proof fn lemma_channel_image_fields(chs: Seq<LdChannelView>, i: int)
    requires
        0 <= i < chs.len(),
    ensures
        ({
            let h = channel_image(chs, i);
            &&& h.len() == CHANNEL_HEADER_SIZE
            &&& h.subrange(0, 4) == le32(prev_pos(i))
            &&& h.subrange(4, 8) == le32(next_pos(chs.len() as int, i))
            &&& h.subrange(8, 12) == le32(data_pos(chs, i))
            &&& h.subrange(12, 16) == le32(chs[i].samples.len() as int)
            &&& h.subrange(16, 18) == le16(8000 + i)
            &&& h.subrange(18, 20) == le16(7)
            &&& h.subrange(22, 24) == le16(chs[i].freq_hz as int)
            &&& h.subrange(32, 32 + text_field(chs[i].name, 32).len() as int) == text_field(chs[i].name, 32)
        }),
{
    reveal(channel_image);
    lemma_text_field_len(chs[i].name, 32);
    lemma_text_field_len(chs[i].short_name, 8);
    lemma_text_field_len(chs[i].units, 12);
}

proof fn lemma_channel_images(chs: Seq<LdChannelView>, k: int, i: int)
    requires
        0 <= i < k <= chs.len(),
    ensures
        channel_images(chs, k).len() == k * CHANNEL_HEADER_SIZE,
        channel_images(chs, k).subrange(i * CHANNEL_HEADER_SIZE, (i + 1) * CHANNEL_HEADER_SIZE) == channel_image(chs, i),
    decreases k,
{
    lemma_channel_image_fields(chs, k - 1);
    if k - 1 == 0 {
        assert(channel_images(chs, 0) =~= Seq::<u8>::empty());
        assert(channel_images(chs, k) =~= channel_image(chs, 0));
    } else {
        lemma_channel_images(chs, k - 1, if i < k - 1 { i } else { 0 });
        let a = channel_images(chs, k - 1);
        let b = channel_image(chs, k - 1);
        assert(channel_images(chs, k) == a + b);
        if i < k - 1 {
            assert((a + b).subrange(i * CHANNEL_HEADER_SIZE, (i + 1) * CHANNEL_HEADER_SIZE) =~= a.subrange(i * CHANNEL_HEADER_SIZE, (i + 1) * CHANNEL_HEADER_SIZE));
        } else {
            assert((a + b).subrange(i * CHANNEL_HEADER_SIZE, (i + 1) * CHANNEL_HEADER_SIZE) =~= b);
        }
    }
}

proof fn lemma_channel_images_len(chs: Seq<LdChannelView>, k: int)
    requires
        0 <= k <= chs.len(),
    ensures
        channel_images(chs, k).len() == k * CHANNEL_HEADER_SIZE,
{
    if k > 0 {
        lemma_channel_images(chs, k, 0);
    }
}

proof fn lemma_samples_le(s: Seq<u32>, j: int)
    ensures
        samples_le(s).len() == 4 * s.len(),
        0 <= j < s.len() ==> samples_le(s).subrange(4 * j, 4 * j + 4) == le32(s[j] as int),
    decreases s.len(),
{
    if s.len() > 0 {
        lemma_samples_le(s.drop_last(), j);
        let a = samples_le(s.drop_last());
        let b = le32(s.last() as int);
        if 0 <= j < s.len() - 1 {
            assert((a + b).subrange(4 * j, 4 * j + 4) =~= a.subrange(4 * j, 4 * j + 4));
        } else if j == s.len() - 1 {
            assert((a + b).subrange(4 * j, 4 * j + 4) =~= b);
        }
    }
}

proof fn lemma_sample_data(chs: Seq<LdChannelView>, i: int, j: int)
    ensures
        sample_data(chs).len() == 4 * total_samples(chs),
        0 <= i < chs.len() && 0 <= j < chs[i].samples.len() ==> sample_data(chs).subrange(
            4 * total_samples(chs.take(i)) + 4 * j,
            4 * total_samples(chs.take(i)) + 4 * j + 4,
        ) == le32(chs[i].samples[j] as int),
    decreases chs.len(),
{
    if chs.len() > 0 {
        let last = chs.len() - 1;
        lemma_sample_data(chs.drop_last(), i, j);
        lemma_samples_le(chs.last().samples, j);
        let a = sample_data(chs.drop_last());
        let b = samples_le(chs.last().samples);
        if 0 <= i < chs.len() && 0 <= j < chs[i].samples.len() {
            let lo = 4 * total_samples(chs.take(i)) + 4 * j;
            if i < last {
                assert(chs.drop_last().take(i) =~= chs.take(i));
                lemma_total_samples_monotonic(chs.drop_last(), i + 1);
                lemma_total_samples_prefix(chs.drop_last(), i);
                assert((a + b).subrange(lo, lo + 4) =~= a.subrange(lo, lo + 4));
            } else {
                assert(chs.take(i) =~= chs.drop_last());
                assert((a + b).subrange(lo, lo + 4) =~= b.subrange(4 * j, 4 * j + 4));
            }
        }
    }
}

/// The file header's fields, read back.
proof fn lemma_header_image_fields(d: LdDocView)
    ensures
        header_image(d).len() == LOG_HEADER_SIZE,
        header_image(d).subrange(8, 12) == le32(first_channel_pos(d.channels.len())),
        header_image(d).subrange(12, 16) == le32(first_data_pos(d.channels.len())),
        header_image(d).subrange(86, 90) == le32(d.channels.len() as int),
{
    reveal(header_image);
    lemma_text_field_len("ADL"@, 8);
    lemma_text_field_len(d.date, 16);
    lemma_text_field_len(d.time, 16);
    lemma_text_field_len(d.driver, 64);
    lemma_text_field_len(d.vehicle, 64);
    lemma_text_field_len(d.venue, 64);
    lemma_text_field_len(d.comment, 64);
}

proof fn lemma_event_image_len(d: LdDocView)
    ensures
        event_image(d).len() == EVENT_SIZE,
{
    reveal(event_image);
    lemma_text_field_len(d.event_name, 64);
    lemma_text_field_len(d.event_session, 64);
    lemma_text_field_len(d.event_comment, 1024);
}

/// Reading a written file back: the header gives the channel count and
/// where the first channel header and the first samples stand; each channel
/// header links to its neighbours, says where its samples start, how many
/// there are, their type (float, 4 bytes) and rate; every sample is found,
/// little-endian, at its channel's data offset; and the file ends right
/// after the last channel's samples.
pub proof fn lemma_ld_layout(d: LdDocView)
    requires
        writable(d),
    ensures
        ({
            let b = ld_bytes(d);
            let chs = d.channels;
            let n = chs.len() as int;
            &&& b.len() == LOG_HEADER_SIZE + EVENT_SIZE + n * CHANNEL_HEADER_SIZE + 4 * total_samples(chs)
            &&& read_le32(b.subrange(86, 90)) == n
            &&& read_le32(b.subrange(8, 12)) == first_channel_pos(n as nat)
            &&& read_le32(b.subrange(12, 16)) == first_data_pos(n as nat)
            &&& n > 0 ==> b.len() == data_pos(chs, n - 1) + 4 * chs[n - 1].samples.len()
            &&& forall|i: int| 0 <= i < n ==> {
                let p = #[trigger] channel_pos(i);
                &&& read_le32(b.subrange(p, p + 4)) == prev_pos(i)
                &&& read_le32(b.subrange(p + 4, p + 8)) == next_pos(n, i)
                &&& read_le32(b.subrange(p + 8, p + 12)) == data_pos(chs, i)
                &&& read_le32(b.subrange(p + 12, p + 16)) == chs[i].samples.len()
                &&& read_le16(b.subrange(p + 18, p + 20)) == 7
                &&& read_le16(b.subrange(p + 22, p + 24)) == chs[i].freq_hz
                &&& b.subrange(p + 32, p + 32 + text_field(chs[i].name, 32).len() as int) == text_field(chs[i].name, 32)
                &&& i + 1 < n ==> data_pos(chs, i + 1) == data_pos(chs, i) + 4 * chs[i].samples.len()
            }
            &&& forall|i: int, j: int| 0 <= i < n && 0 <= j < chs[i].samples.len() ==>
                b.subrange(#[trigger] data_pos(chs, i) + 4 * j, data_pos(chs, i) + 4 * j + 4)
                    == le32(#[trigger] chs[i].samples[j] as int)
        }),
{
    let chs = d.channels;
    let n = chs.len() as int;
    let h = header_image(d);
    let e = event_image(d);
    let c = channel_images(chs, n);
    let s = sample_data(chs);
    let b = ld_bytes(d);
    lemma_header_image_fields(d);
    lemma_event_image_len(d);
    lemma_channel_images_len(chs, n);
    lemma_sample_data(chs, 0, 0);
    assert(b == h + e + c + s);
    lemma_total_samples_monotonic(chs, n);
    assert(chs.take(n) =~= chs);
    assert(b.subrange(86, 90) =~= h.subrange(86, 90));
    assert(b.subrange(8, 12) =~= h.subrange(8, 12));
    assert(b.subrange(12, 16) =~= h.subrange(12, 16));
    lemma_le32_roundtrip(n);
    lemma_le32_roundtrip(first_channel_pos(n as nat));
    lemma_le32_roundtrip(first_data_pos(n as nat));
    if n > 0 {
        lemma_total_samples_prefix(chs, n - 1);
    }
    assert forall|i: int| 0 <= i < n implies {
        let p = #[trigger] channel_pos(i);
        &&& read_le32(b.subrange(p, p + 4)) == prev_pos(i)
        &&& read_le32(b.subrange(p + 4, p + 8)) == next_pos(n, i)
        &&& read_le32(b.subrange(p + 8, p + 12)) == data_pos(chs, i)
        &&& read_le32(b.subrange(p + 12, p + 16)) == chs[i].samples.len()
        &&& read_le16(b.subrange(p + 18, p + 20)) == 7
        &&& read_le16(b.subrange(p + 22, p + 24)) == chs[i].freq_hz
        &&& b.subrange(p + 32, p + 32 + text_field(chs[i].name, 32).len() as int) == text_field(chs[i].name, 32)
        &&& i + 1 < n ==> data_pos(chs, i + 1) == data_pos(chs, i) + 4 * chs[i].samples.len()
    } by {
        let p = channel_pos(i);
        let q = i * CHANNEL_HEADER_SIZE;
        lemma_channel_images(chs, n, i);
        lemma_channel_image_fields(chs, i);
        let ci = channel_image(chs, i);
        lemma_total_samples_prefix(chs, i);
        lemma_total_samples_monotonic(chs, i + 1);
        lemma_text_field_len(chs[i].name, 32);
        assert(b.subrange(p, p + 4) =~= ci.subrange(0, 4));
        assert(b.subrange(p + 4, p + 8) =~= ci.subrange(4, 8));
        assert(b.subrange(p + 8, p + 12) =~= ci.subrange(8, 12));
        assert(b.subrange(p + 12, p + 16) =~= ci.subrange(12, 16));
        assert(b.subrange(p + 18, p + 20) =~= ci.subrange(18, 20));
        assert(b.subrange(p + 22, p + 24) =~= ci.subrange(22, 24));
        assert(b.subrange(p + 32, p + 32 + text_field(chs[i].name, 32).len() as int) =~= ci.subrange(32, 32 + text_field(chs[i].name, 32).len() as int));
        lemma_le32_roundtrip(prev_pos(i));
        lemma_le32_roundtrip(next_pos(n, i));
        lemma_le32_roundtrip(data_pos(chs, i));
        lemma_le32_roundtrip(chs[i].samples.len() as int);
        lemma_le16_roundtrip(7);
        lemma_le16_roundtrip(chs[i].freq_hz as int);
    }
    assert forall|i: int, j: int| 0 <= i < n && 0 <= j < chs[i].samples.len() implies
        b.subrange(#[trigger] data_pos(chs, i) + 4 * j, data_pos(chs, i) + 4 * j + 4)
            == le32(#[trigger] chs[i].samples[j] as int) by {
        lemma_sample_data(chs, i, j);
        lemma_total_samples_prefix(chs, i);
        lemma_total_samples_monotonic(chs, i + 1);
        let lo = 4 * total_samples(chs.take(i)) + 4 * j;
        let off = (LOG_HEADER_SIZE + EVENT_SIZE) as int + n * CHANNEL_HEADER_SIZE;
        assert(b.subrange(off + lo, off + lo + 4) =~= s.subrange(lo, lo + 4));
    }
}


/// Inside one of the two 16-byte header fields of the date and time.
pub open spec fn in_stamp(i: int) -> bool {
    (94 <= i < 110) || (126 <= i < 142)
}

/// Two byte strings of one length that agree outside the stamp fields.
pub open spec fn agree_off_stamp(a: Seq<u8>, b: Seq<u8>) -> bool {
    a.len() == b.len() && forall|i: int| 0 <= i < a.len() && !in_stamp(i) ==> a[i] == b[i]
}

proof fn lemma_splice_agree(x: Seq<u8>, y: Seq<u8>, at: int, t1: Seq<u8>, t2: Seq<u8>)
    requires
        agree_off_stamp(x, y),
        0 <= at,
        at + t1.len() <= x.len(),
        at + t2.len() <= x.len(),
        t1 == t2 || ((at == 94 || at == 126) && t1.len() <= 16 && t2.len() <= 16),
    ensures
        agree_off_stamp(splice(x, at, t1), splice(y, at, t2)),
{
    reveal(crate::bytes::splice);
    let a = splice(x, at, t1);
    let b = splice(y, at, t2);
    assert forall|i: int| 0 <= i < a.len() && !in_stamp(i) implies a[i] == b[i] by {
        if i < at {
            assert(a[i] == x[i] && b[i] == y[i]);
        } else if t1 == t2 && i < at + t1.len() {
            assert(a[i] == t1[i - at] && b[i] == t2[i - at]);
        } else if t1 == t2 {
            assert(a[i] == x[i] && b[i] == y[i]);
        } else {
            assert(i >= at + 16);
            assert(a[i] == x[i] && b[i] == y[i]);
        }
    }
}

/// The date and time of a document are written into their two 16-byte
/// header fields and nowhere else: documents that differ only in them give
/// files of one length that agree outside those fields.
pub proof fn lemma_stamp_fields(d: LdDocView, date: Seq<char>, time: Seq<char>)
    ensures
        agree_off_stamp(ld_bytes(d), ld_bytes(LdDocView { date, time, ..d })),
{
    let e = LdDocView { date, time, ..d };
    reveal(header_image);
    let n = d.channels.len();
    lemma_text_field_len(d.date, 16);
    lemma_text_field_len(d.time, 16);
    lemma_text_field_len(date, 16);
    lemma_text_field_len(time, 16);
    lemma_text_field_len("ADL"@, 8);
    lemma_text_field_len(d.driver, 64);
    lemma_text_field_len(d.vehicle, 64);
    lemma_text_field_len(d.venue, 64);
    lemma_text_field_len(d.comment, 64);
    let z = zeros(LOG_HEADER_SIZE as nat);
    let a0 = splice(z, 0, le32(64));
    lemma_splice_agree(z, z, 0, le32(64), le32(64));
    let a1 = splice(a0, 8, le32(first_channel_pos(n)));
    lemma_splice_agree(a0, a0, 8, le32(first_channel_pos(n)), le32(first_channel_pos(n)));
    let a2 = splice(a1, 12, le32(first_data_pos(n)));
    lemma_splice_agree(a1, a1, 12, le32(first_data_pos(n)), le32(first_data_pos(n)));
    let a3 = splice(a2, 36, le32(LOG_HEADER_SIZE as int));
    lemma_splice_agree(a2, a2, 36, le32(LOG_HEADER_SIZE as int), le32(LOG_HEADER_SIZE as int));
    let a4 = splice(a3, 66, le32(1_000_000));
    lemma_splice_agree(a3, a3, 66, le32(1_000_000), le32(1_000_000));
    let a5 = splice(a4, 70, le32(12007));
    lemma_splice_agree(a4, a4, 70, le32(12007), le32(12007));
    let a6 = splice(a5, 74, text_field("ADL"@, 8));
    lemma_splice_agree(a5, a5, 74, text_field("ADL"@, 8), text_field("ADL"@, 8));
    let a7 = splice(a6, 82, le16(420));
    lemma_splice_agree(a6, a6, 82, le16(420), le16(420));
    let a8 = splice(a7, 84, le16(128));
    lemma_splice_agree(a7, a7, 84, le16(128), le16(128));
    let a9 = splice(a8, 86, le32(n as int));
    lemma_splice_agree(a8, a8, 86, le32(n as int), le32(n as int));
    let b10 = splice(a9, 94, text_field(d.date, 16));
    let c10 = splice(a9, 94, text_field(date, 16));
    lemma_splice_agree(a9, a9, 94, text_field(d.date, 16), text_field(date, 16));
    let b11 = splice(b10, 126, text_field(d.time, 16));
    let c11 = splice(c10, 126, text_field(time, 16));
    lemma_splice_agree(b10, c10, 126, text_field(d.time, 16), text_field(time, 16));
    let b12 = splice(b11, 158, text_field(d.driver, 64));
    let c12 = splice(c11, 158, text_field(d.driver, 64));
    lemma_splice_agree(b11, c11, 158, text_field(d.driver, 64), text_field(d.driver, 64));
    let b13 = splice(b12, 222, text_field(d.vehicle, 64));
    let c13 = splice(c12, 222, text_field(d.vehicle, 64));
    lemma_splice_agree(b12, c12, 222, text_field(d.vehicle, 64), text_field(d.vehicle, 64));
    let b14 = splice(b13, 350, text_field(d.venue, 64));
    let c14 = splice(c13, 350, text_field(d.venue, 64));
    lemma_splice_agree(b13, c13, 350, text_field(d.venue, 64), text_field(d.venue, 64));
    let hb = splice(b14, 1572, text_field(d.comment, 64));
    let hc = splice(c14, 1572, text_field(d.comment, 64));
    lemma_splice_agree(b14, c14, 1572, text_field(d.comment, 64), text_field(d.comment, 64));
    assert(header_image(d) == hb);
    assert(header_image(e) == hc);
    assert(event_image(e) == event_image(d)) by {
        reveal(event_image);
    }
    let rest = event_image(d) + channel_images(d.channels, n as int) + sample_data(d.channels);
    assert(ld_bytes(d) =~= hb + rest);
    assert(ld_bytes(e) =~= hc + rest);
    let a = hb + rest;
    let b = hc + rest;
    assert forall|i: int| 0 <= i < a.len() && !in_stamp(i) implies a[i] == b[i] by {
        if i >= hb.len() {
            assert(a[i] == rest[i - hb.len()] && b[i] == rest[i - hc.len()]);
        } else {
            assert(a[i] == hb[i] && b[i] == hc[i]);
        }
    }
}

} // verus!
