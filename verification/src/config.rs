//! The configuration form: reading what was typed into its fields and
//! checking it field by field into the configuration sent to the logger.

use vstd::prelude::*;
use vstd::string::*;
use crate::decimal::{float_syntax, is_float_text};
use crate::text::{
    decimal_chars, decimal_text, digit_char, digit_value, digits_value, hex_numeral, hex_upper_text, is_space, parse_unsigned,
    string_of, text_of, trim, trim_end, trim_start, trimmed_chars, unsigned_value, upper_hex_digit,
};

verus! {

/// A CAN id as typed: surrounding white space ignored, then hex after a
/// `0x` or `0X` prefix, else decimal, fitting 32 bits.
pub open spec fn can_id_value(s: Seq<char>) -> Option<nat> {
    let t = trim(s);
    if t.len() >= 2 && t[0] == '0' && (t[1] == 'x' || t[1] == 'X') {
        unsigned_value(t.skip(2), 16, u32::MAX as nat)
    } else {
        unsigned_value(t, 10, u32::MAX as nat)
    }
}

/// Reads a CAN id (`0x1A0`, `416`, ...).
pub fn parse_can_id(s: &str) -> (r: Option<u32>)
    ensures
        r == (match can_id_value(s@) { Some(v) => Some(v as u32), None => None::<u32> }),
{
    let t = trimmed_chars(s);
    if t.len() >= 2 && t[0] == '0' && (t[1] == 'x' || t[1] == 'X') {
        let mut hex: Vec<char> = Vec::new();
        let mut k: usize = 2;
        while k < t.len()
            invariant
                2 <= k <= t@.len(),
                hex@ == t@.subrange(2, k as int),
            decreases t@.len() - k,
        {
            hex.push(t[k]);
            k += 1;
            assert(hex@ =~= t@.subrange(2, k as int));
        }
        assert(hex@ =~= t@.skip(2));
        match parse_unsigned(&hex, 16, u32::MAX as u64) {
            Some(v) => Some(v as u32),
            None => None,
        }
    } else {
        match parse_unsigned(&t, 10, u32::MAX as u64) {
            Some(v) => Some(v as u32),
            None => None,
        }
    }
}

/// Reads a decimal form field of at most `max`, surrounding white space
/// ignored (as `text.trim().parse()` for an unsigned type whose largest
/// value is `max`).
pub fn parse_field(text: &str, max: u64) -> (r: Option<u64>)
    ensures
        r == (match unsigned_value(trim(text@), 10, max as nat) { Some(v) => Some(v as u64), None => None::<u64> }),
{
    let t = trimmed_chars(text);
    parse_unsigned(&t, 10, max)
}


/// A decimal form field: surrounding white space ignored, at most `max`.
pub open spec fn field_value(text: Seq<char>, max: nat) -> Option<nat> {
    unsigned_value(trim(text), 10, max)
}

/// A float form field: empty (once trimmed) reads as none; else the trimmed
/// text when `f32` reads it, and no value at all when it does not.
pub open spec fn float_field(text: Seq<char>) -> Option<Option<Seq<char>>> {
    let t = trim(text);
    if t.len() == 0 {
        Some(None)
    } else if float_syntax(t) {
        Some(Some(t))
    } else {
        None
    }
}

/// Reads a float form field: `Some(None)` when empty, `Some(Some(t))` with
/// the trimmed text `t` of a float, `None` when it is no float.
pub fn float_field_text(text: &str) -> (r: Option<Option<String>>)
    ensures
        match r {
            Some(o) => float_field(text@) == Some(text_of(o)),
            None => float_field(text@) is None,
        },
{
    let t = trimmed_chars(text);
    if t.len() == 0 {
        Some(None)
    } else if is_float_text(&t) {
        Some(Some(string_of(&t)))
    } else {
        None
    }
}

/// The message for a field that does not read: `label: invalid field "text"`.
pub open spec fn invalid(label: Seq<char>, field: Seq<char>, text: Seq<char>) -> Seq<char> {
    label + ": invalid "@ + field + " \""@ + text + "\""@
}

fn invalid_message(label: &str, field: &str, text: &str) -> (r: String)
    ensures
        r@ == invalid(label@, field@, text@),
{
    let mut m = label.to_owned();
    m.append(": invalid ");
    m.append(field);
    m.append(" \"");
    m.append(text);
    m.append("\"");
    m
}

/// The label of the `i`-th item (counted from 0) of a list: `prefix` and
/// `i + 1`.
pub open spec fn numbered(prefix: Seq<char>, i: int) -> Seq<char> {
    prefix + decimal_chars((i + 1) as nat)
}

fn numbered_label(prefix: &str, i: usize) -> (r: String)
    requires
        i < usize::MAX,
    ensures
        r@ == numbered(prefix@, i as int),
{
    let mut m = prefix.to_owned();
    let n = decimal_text(i as u64 + 1);
    m.append(n.as_str());
    m
}

fn suffixed(label: &str, suffix: &str) -> (r: String)
    ensures
        r@ == label@ + suffix@,
{
    let mut m = label.to_owned();
    m.append(suffix);
    m
}

/// The first error of a list whose `i`-th item has the error `err(item, i)`.
pub open spec fn first_error<T>(xs: Seq<T>, err: spec_fn(T, int) -> Option<Seq<char>>) -> Option<Seq<char>>
    decreases xs.len(),
{
    if xs.len() == 0 {
        None
    } else {
        match first_error(xs.drop_last(), err) {
            Some(e) => Some(e),
            None => err(xs.last(), xs.len() - 1),
        }
    }
}

/// One more item checked: the first error of the longer prefix.
proof fn lemma_first_error_step<T>(xs: Seq<T>, err: spec_fn(T, int) -> Option<Seq<char>>, i: int)
    requires
        0 <= i < xs.len(),
    ensures
        first_error(xs.take(i + 1), err) == (match first_error(xs.take(i), err) {
            Some(e) => Some(e),
            None => err(xs[i], i),
        }),
{
    assert(xs.take(i + 1).drop_last() =~= xs.take(i));
}

/// An error in a prefix is the first error of the whole list.
proof fn lemma_first_error_prefix<T>(xs: Seq<T>, err: spec_fn(T, int) -> Option<Seq<char>>, k: int)
    requires
        0 <= k <= xs.len(),
        first_error(xs.take(k), err) is Some,
    ensures
        first_error(xs, err) == first_error(xs.take(k), err),
    decreases xs.len() - k,
{
    if k < xs.len() {
        lemma_first_error_step(xs, err, k);
        lemma_first_error_prefix(xs, err, k + 1);
    } else {
        assert(xs.take(k) =~= xs);
    }
}

/// One signal of a CAN frame, as typed in the form.
pub struct SignalForm {
    pub name: String,
    pub start: String,
    pub len: String,
    pub signed: bool,
    pub big_endian: bool,
    /// Empty means no scale: the raw bytes are logged.
    pub scale: String,
    /// Empty means an offset of 0.
    pub offset: String,
}

/// A checked signal. `scale` and `offset` hold the trimmed text of a float
/// (`f32::from_str` reads it), or none for an empty field.
pub struct Signal {
    pub name: String,
    pub start: usize,
    pub len: usize,
    pub signed: bool,
    pub big_endian: bool,
    pub scale: Option<String>,
    pub offset: Option<String>,
}

impl SignalForm {
    /// The first field that does not read, in the order start, len, scale,
    /// offset.
    pub open spec fn error(&self, label: Seq<char>) -> Option<Seq<char>> {
        if field_value(self.start@, usize::MAX as nat) is None {
            Some(invalid(label, "start"@, self.start@))
        } else if field_value(self.len@, usize::MAX as nat) is None {
            Some(invalid(label, "len"@, self.len@))
        } else if float_field(self.scale@) is None {
            Some(invalid(label, "scale"@, self.scale@))
        } else if float_field(self.offset@) is None {
            Some(invalid(label, "offset"@, self.offset@))
        } else {
            None
        }
    }

    /// Checks the signal's fields; errors name the signal by `label`.
    pub fn to_signal(&self, label: &str) -> (r: Result<Signal, String>)
        ensures
            match r {
                Ok(s) => self.error(label@) is None && s.read_from(*self),
                Err(e) => self.error(label@) == Some(e@),
            },
    {
        let start = match parse_field(self.start.as_str(), usize::MAX as u64) {
            Some(v) => v as usize,
            None => return Err(invalid_message(label, "start", self.start.as_str())),
        };
        let len = match parse_field(self.len.as_str(), usize::MAX as u64) {
            Some(v) => v as usize,
            None => return Err(invalid_message(label, "len", self.len.as_str())),
        };
        let scale = match float_field_text(self.scale.as_str()) {
            Some(o) => o,
            None => return Err(invalid_message(label, "scale", self.scale.as_str())),
        };
        let offset = match float_field_text(self.offset.as_str()) {
            Some(o) => o,
            None => return Err(invalid_message(label, "offset", self.offset.as_str())),
        };
        Ok(Signal { name: self.name.clone(), start, len, signed: self.signed, big_endian: self.big_endian, scale, offset })
    }
}

impl Signal {
    /// This signal is what the form's fields read as.
    pub open spec fn read_from(&self, f: SignalForm) -> bool {
        &&& self.name@ == f.name@
        &&& field_value(f.start@, usize::MAX as nat) == Some(self.start as nat)
        &&& field_value(f.len@, usize::MAX as nat) == Some(self.len as nat)
        &&& self.signed == f.signed
        &&& self.big_endian == f.big_endian
        &&& float_field(f.scale@) == Some(text_of(self.scale))
        &&& float_field(f.offset@) == Some(text_of(self.offset))
    }
}

/// The error of a list of signals, the `i`-th labelled `prefix` and `i + 1`.
pub open spec fn signals_error(fs: Seq<SignalForm>, prefix: Seq<char>) -> Option<Seq<char>> {
    first_error(fs, |f: SignalForm, i: int| f.error(numbered(prefix, i)))
}

/// Each checked signal is what its form reads as.
pub open spec fn signals_read(out: Seq<Signal>, fs: Seq<SignalForm>) -> bool {
    out.len() == fs.len() && forall|i: int| 0 <= i < fs.len() ==> #[trigger] out[i].read_from(fs[i])
}

fn read_signals(fs: &Vec<SignalForm>, prefix: &str) -> (r: Result<Vec<Signal>, String>)
    ensures
        match r {
            Ok(v) => signals_error(fs@, prefix@) is None && signals_read(v@, fs@),
            Err(e) => signals_error(fs@, prefix@) == Some(e@),
        },
{
    let ghost err = |f: SignalForm, i: int| f.error(numbered(prefix@, i));
    let mut out: Vec<Signal> = Vec::new();
    let mut i: usize = 0;
    assert(fs@.take(0) =~= Seq::<SignalForm>::empty());
    while i < fs.len()
        invariant
            i <= fs@.len(),
            err == (|f: SignalForm, i: int| f.error(numbered(prefix@, i))),
            first_error(fs@.take(i as int), err) is None,
            signals_read(out@, fs@.take(i as int)),
        decreases fs@.len() - i,
    {
        let label = numbered_label(prefix, i);
        proof {
            lemma_first_error_step(fs@, err, i as int);
        }
        match fs[i].to_signal(label.as_str()) {
            Ok(s) => {
                out.push(s);
                assert(signals_read(out@, fs@.take(i + 1)));
            },
            Err(e) => {
                proof {
                    lemma_first_error_prefix(fs@, err, i + 1);
                }
                return Err(e);
            },
        }
        i += 1;
    }
    assert(fs@.take(fs@.len() as int) =~= fs@);
    Ok(out)
}


/// The signals of one multiplexer value, as typed.
pub struct SignalGroupForm {
    pub type_val: String,
    pub signals: Vec<SignalForm>,
}

/// A checked multiplexer group.
pub struct SignalGroup {
    pub type_val: u8,
    pub signals: Vec<Signal>,
}

impl SignalGroupForm {
    /// The group's type value first, then its signals, labelled
    /// `label signal i`.
    pub open spec fn error(&self, label: Seq<char>) -> Option<Seq<char>> {
        if field_value(self.type_val@, u8::MAX as nat) is None {
            Some(invalid(label, "type_val"@, self.type_val@))
        } else {
            signals_error(self.signals@, label + " signal "@)
        }
    }

    /// Checks the group; errors name it by `label`.
    pub fn to_group(&self, label: &str) -> (r: Result<SignalGroup, String>)
        ensures
            match r {
                Ok(g) => self.error(label@) is None && g.read_from(*self),
                Err(e) => self.error(label@) == Some(e@),
            },
    {
        let type_val = match parse_field(self.type_val.as_str(), u8::MAX as u64) {
            Some(v) => v as u8,
            None => return Err(invalid_message(label, "type_val", self.type_val.as_str())),
        };
        let prefix = suffixed(label, " signal ");
        let signals = read_signals(&self.signals, prefix.as_str())?;
        Ok(SignalGroup { type_val, signals })
    }
}

impl SignalGroup {
    /// This group is what the form's fields read as.
    pub open spec fn read_from(&self, g: SignalGroupForm) -> bool {
        &&& field_value(g.type_val@, u8::MAX as nat) == Some(self.type_val as nat)
        &&& signals_read(self.signals@, g.signals@)
    }
}

/// The error of a list of groups, the `i`-th labelled `label group i+1`.
pub open spec fn groups_error(gs: Seq<SignalGroupForm>, label: Seq<char>) -> Option<Seq<char>> {
    first_error(gs, |g: SignalGroupForm, i: int| g.error(numbered(label + " group "@, i)))
}

/// Each checked group is what its form reads as.
pub open spec fn groups_read(out: Seq<SignalGroup>, gs: Seq<SignalGroupForm>) -> bool {
    out.len() == gs.len() && forall|i: int| 0 <= i < gs.len() ==> #[trigger] out[i].read_from(gs[i])
}

fn read_groups(gs: &Vec<SignalGroupForm>, label: &str) -> (r: Result<Vec<SignalGroup>, String>)
    ensures
        match r {
            Ok(v) => groups_error(gs@, label@) is None && groups_read(v@, gs@),
            Err(e) => groups_error(gs@, label@) == Some(e@),
        },
{
    let ghost err = |g: SignalGroupForm, i: int| g.error(numbered(label@ + " group "@, i));
    let prefix = suffixed(label, " group ");
    let mut out: Vec<SignalGroup> = Vec::new();
    let mut i: usize = 0;
    assert(gs@.take(0) =~= Seq::<SignalGroupForm>::empty());
    while i < gs.len()
        invariant
            i <= gs@.len(),
            prefix@ == label@ + " group "@,
            err == (|g: SignalGroupForm, i: int| g.error(numbered(label@ + " group "@, i))),
            first_error(gs@.take(i as int), err) is None,
            groups_read(out@, gs@.take(i as int)),
        decreases gs@.len() - i,
    {
        let glabel = numbered_label(prefix.as_str(), i);
        proof {
            lemma_first_error_step(gs@, err, i as int);
        }
        match gs[i].to_group(glabel.as_str()) {
            Ok(g) => {
                out.push(g);
                assert(groups_read(out@, gs@.take(i + 1)));
            },
            Err(e) => {
                proof {
                    lemma_first_error_prefix(gs@, err, i + 1);
                }
                return Err(e);
            },
        }
        i += 1;
    }
    assert(gs@.take(gs@.len() as int) =~= gs@);
    Ok(out)
}

/// The signals of a CAN frame, as typed: a fixed list, or lists chosen by
/// the value of a multiplexer byte.
pub enum SignalsForm {
    Fixed(Vec<SignalForm>),
    Muxed { byte: String, groups: Vec<SignalGroupForm> },
}

/// Checked signals of a CAN frame.
pub enum Signals {
    Fixed(Vec<Signal>),
    Muxed { byte: usize, groups: Vec<SignalGroup> },
}

impl SignalsForm {
    /// Fixed signals are labelled `label signal i`; multiplexed ones have
    /// their byte checked first, then their groups in order.
    pub open spec fn error(&self, label: Seq<char>) -> Option<Seq<char>> {
        match self {
            SignalsForm::Fixed(fs) => signals_error(fs@, label + " signal "@),
            SignalsForm::Muxed { byte, groups } => if field_value(byte@, usize::MAX as nat) is None {
                Some(invalid(label, "mux byte"@, byte@))
            } else {
                groups_error(groups@, label)
            },
        }
    }

    /// Checks the signals of a frame; errors name the frame by `label`.
    pub fn to_signals(&self, label: &str) -> (r: Result<Signals, String>)
        ensures
            match r {
                Ok(v) => self.error(label@) is None && v.read_from(*self),
                Err(e) => self.error(label@) == Some(e@),
            },
    {
        match self {
            SignalsForm::Fixed(fs) => {
                let prefix = suffixed(label, " signal ");
                let v = read_signals(fs, prefix.as_str())?;
                Ok(Signals::Fixed(v))
            },
            SignalsForm::Muxed { byte, groups } => {
                let b = match parse_field(byte.as_str(), usize::MAX as u64) {
                    Some(v) => v as usize,
                    None => return Err(invalid_message(label, "mux byte", byte.as_str())),
                };
                let gs = read_groups(groups, label)?;
                Ok(Signals::Muxed { byte: b, groups: gs })
            },
        }
    }
}

impl Signals {
    /// These signals are what the form reads as.
    pub open spec fn read_from(&self, f: SignalsForm) -> bool {
        match (self, f) {
            (Signals::Fixed(v), SignalsForm::Fixed(fs)) => signals_read(v@, fs@),
            (Signals::Muxed { byte, groups }, SignalsForm::Muxed { byte: bt, groups: gs }) => {
                &&& field_value(bt@, usize::MAX as nat) == Some(*byte as nat)
                &&& groups_read(groups@, gs@)
            },
            _ => false,
        }
    }
}


/// A CAN device of the form, as typed.
pub struct CanDeviceForm {
    pub id: String,
    pub extended: bool,
    pub fd: bool,
    pub signals: SignalsForm,
}

/// A checked CAN device.
pub struct CanDevice {
    pub id: u32,
    pub extended: bool,
    pub fd: bool,
    pub signals: Signals,
}

impl CanDeviceForm {
    /// The id first, then the signals.
    pub open spec fn error(&self, label: Seq<char>) -> Option<Seq<char>> {
        if can_id_value(self.id@) is None {
            Some(invalid(label, "id"@, self.id@))
        } else {
            self.signals.error(label)
        }
    }

    /// Checks the device; errors name it by `label`.
    pub fn to_device(&self, label: &str) -> (r: Result<CanDevice, String>)
        ensures
            match r {
                Ok(d) => self.error(label@) is None && d.read_from(*self),
                Err(e) => self.error(label@) == Some(e@),
            },
    {
        let id = match parse_can_id(self.id.as_str()) {
            Some(v) => v,
            None => return Err(invalid_message(label, "id", self.id.as_str())),
        };
        let signals = self.signals.to_signals(label)?;
        Ok(CanDevice { id, extended: self.extended, fd: self.fd, signals })
    }
}

impl CanDevice {
    /// This device is what the form reads as.
    pub open spec fn read_from(&self, f: CanDeviceForm) -> bool {
        &&& can_id_value(f.id@) == Some(self.id as nat)
        &&& self.extended == f.extended
        &&& self.fd == f.fd
        &&& self.signals.read_from(f.signals)
    }
}

/// An ADC channel of the form, as typed.
pub struct AdcChannelForm {
    pub name: String,
    pub channel: String,
    /// Empty means no scale: the raw counts are logged.
    pub scale: String,
    /// Empty means an offset of 0.
    pub offset: String,
}

/// A checked ADC channel; `scale` and `offset` as in `Signal`.
pub struct AdcChannel {
    pub name: String,
    pub channel: u8,
    pub scale: Option<String>,
    pub offset: Option<String>,
}

impl AdcChannelForm {
    /// The first field that does not read, in the order channel, scale,
    /// offset.
    pub open spec fn error(&self, label: Seq<char>) -> Option<Seq<char>> {
        if field_value(self.channel@, u8::MAX as nat) is None {
            Some(invalid(label, "channel"@, self.channel@))
        } else if float_field(self.scale@) is None {
            Some(invalid(label, "scale"@, self.scale@))
        } else if float_field(self.offset@) is None {
            Some(invalid(label, "offset"@, self.offset@))
        } else {
            None
        }
    }

    /// Checks the channel; errors name it by `label`.
    pub fn to_channel(&self, label: &str) -> (r: Result<AdcChannel, String>)
        ensures
            match r {
                Ok(c) => self.error(label@) is None && c.read_from(*self),
                Err(e) => self.error(label@) == Some(e@),
            },
    {
        let channel = match parse_field(self.channel.as_str(), u8::MAX as u64) {
            Some(v) => v as u8,
            None => return Err(invalid_message(label, "channel", self.channel.as_str())),
        };
        let scale = match float_field_text(self.scale.as_str()) {
            Some(o) => o,
            None => return Err(invalid_message(label, "scale", self.scale.as_str())),
        };
        let offset = match float_field_text(self.offset.as_str()) {
            Some(o) => o,
            None => return Err(invalid_message(label, "offset", self.offset.as_str())),
        };
        Ok(AdcChannel { name: self.name.clone(), channel, scale, offset })
    }
}

impl AdcChannel {
    /// This channel is what the form reads as.
    pub open spec fn read_from(&self, f: AdcChannelForm) -> bool {
        &&& self.name@ == f.name@
        &&& field_value(f.channel@, u8::MAX as nat) == Some(self.channel as nat)
        &&& float_field(f.scale@) == Some(text_of(self.scale))
        &&& float_field(f.offset@) == Some(text_of(self.offset))
    }
}

/// The whole form: its CAN devices and ADC channels.
pub struct ConfigForm {
    pub can_devices: Vec<CanDeviceForm>,
    pub adc_channels: Vec<AdcChannelForm>,
}

/// The checked configuration sent to the logger.
pub struct Config {
    pub can_devices: Vec<CanDevice>,
    pub adc_channels: Vec<AdcChannel>,
}

impl ConfigForm {
    /// The first error of the form: the devices in order (`CAN device i`),
    /// then the channels (`ADC channel i`).
    pub open spec fn error(&self) -> Option<Seq<char>> {
        match devices_error(self.can_devices@) {
            Some(e) => Some(e),
            None => channels_error(self.adc_channels@),
        }
    }
}

impl Config {
    /// This configuration is what the form reads as.
    pub open spec fn read_from(&self, f: ConfigForm) -> bool {
        &&& self.can_devices@.len() == f.can_devices@.len()
        &&& forall|i: int| 0 <= i < f.can_devices@.len() ==> #[trigger] self.can_devices@[i].read_from(f.can_devices@[i])
        &&& self.adc_channels@.len() == f.adc_channels@.len()
        &&& forall|i: int| 0 <= i < f.adc_channels@.len() ==> #[trigger] self.adc_channels@[i].read_from(f.adc_channels@[i])
    }
}

/// The first error of the CAN devices, the `i`-th labelled `CAN device i+1`.
pub open spec fn devices_error(ds: Seq<CanDeviceForm>) -> Option<Seq<char>> {
    first_error(ds, |d: CanDeviceForm, i: int| d.error(numbered("CAN device "@, i)))
}

/// The first error of the ADC channels, the `i`-th labelled `ADC channel i+1`.
pub open spec fn channels_error(cs: Seq<AdcChannelForm>) -> Option<Seq<char>> {
    first_error(cs, |c: AdcChannelForm, i: int| c.error(numbered("ADC channel "@, i)))
}

fn read_devices(ds: &Vec<CanDeviceForm>) -> (r: Result<Vec<CanDevice>, String>)
    ensures
        match r {
            Ok(v) => devices_error(ds@) is None && v@.len() == ds@.len()
                && forall|j: int| 0 <= j < ds@.len() ==> #[trigger] v@[j].read_from(ds@[j]),
            Err(e) => devices_error(ds@) == Some(e@),
        },
{
    let ghost err = |d: CanDeviceForm, i: int| d.error(numbered("CAN device "@, i));
    let mut out: Vec<CanDevice> = Vec::new();
    let mut i: usize = 0;
    assert(ds@.take(0) =~= Seq::<CanDeviceForm>::empty());
    while i < ds.len()
        invariant
            i <= ds@.len(),
            err == (|d: CanDeviceForm, i: int| d.error(numbered("CAN device "@, i))),
            first_error(ds@.take(i as int), err) is None,
            out@.len() == i,
            forall|j: int| 0 <= j < i ==> #[trigger] out@[j].read_from(ds@[j]),
        decreases ds@.len() - i,
    {
        let label = numbered_label("CAN device ", i);
        proof {
            lemma_first_error_step(ds@, err, i as int);
        }
        match ds[i].to_device(label.as_str()) {
            Ok(d) => out.push(d),
            Err(e) => {
                proof {
                    lemma_first_error_prefix(ds@, err, i + 1);
                }
                return Err(e);
            },
        }
        i += 1;
    }
    assert(ds@.take(ds@.len() as int) =~= ds@);
    Ok(out)
}

fn read_channels(cs: &Vec<AdcChannelForm>) -> (r: Result<Vec<AdcChannel>, String>)
    ensures
        match r {
            Ok(v) => channels_error(cs@) is None && v@.len() == cs@.len()
                && forall|j: int| 0 <= j < cs@.len() ==> #[trigger] v@[j].read_from(cs@[j]),
            Err(e) => channels_error(cs@) == Some(e@),
        },
{
    let ghost err = |c: AdcChannelForm, i: int| c.error(numbered("ADC channel "@, i));
    let mut out: Vec<AdcChannel> = Vec::new();
    let mut k: usize = 0;
    assert(cs@.take(0) =~= Seq::<AdcChannelForm>::empty());
    while k < cs.len()
        invariant
            k <= cs@.len(),
            err == (|c: AdcChannelForm, i: int| c.error(numbered("ADC channel "@, i))),
            first_error(cs@.take(k as int), err) is None,
            out@.len() == k,
            forall|j: int| 0 <= j < k ==> #[trigger] out@[j].read_from(cs@[j]),
        decreases cs@.len() - k,
    {
        let label = numbered_label("ADC channel ", k);
        proof {
            lemma_first_error_step(cs@, err, k as int);
        }
        match cs[k].to_channel(label.as_str()) {
            Ok(c) => out.push(c),
            Err(e) => {
                proof {
                    lemma_first_error_prefix(cs@, err, k + 1);
                }
                return Err(e);
            },
        }
        k += 1;
    }
    assert(cs@.take(cs@.len() as int) =~= cs@);
    Ok(out)
}

/// Checks the whole form: the configuration it reads as, or the message of
/// the first field that does not read.
pub fn build_config(form: &ConfigForm) -> (r: Result<Config, String>)
    ensures
        match r {
            Ok(c) => form.error() is None && c.read_from(*form),
            Err(e) => form.error() == Some(e@),
        },
{
    let can_devices = read_devices(&form.can_devices)?;
    let adc_channels = read_channels(&form.adc_channels)?;
    Ok(Config { can_devices, adc_channels })
}


/// A signal as the logger's configuration holds it: each field none when it
/// is missing or of another type. `scale` and `offset` are the numbers as
/// `f32` writes them.
pub struct StoredSignal {
    pub name: Option<String>,
    pub start: Option<u64>,
    pub len: Option<u64>,
    pub signed: Option<bool>,
    pub big_endian: Option<bool>,
    pub scale: Option<String>,
    pub offset: Option<String>,
}

/// A stored multiplexer group.
pub struct StoredGroup {
    pub type_val: Option<u64>,
    pub signals: Option<Vec<StoredSignal>>,
}

/// A stored multiplexed signal set: the byte that selects the group, and
/// the groups.
pub struct StoredMuxed {
    pub byte: Option<u64>,
    pub groups: Option<Vec<StoredGroup>>,
}

/// The stored signals of a device: its `Fixed` list and its `Muxed` set,
/// each where the stored object has one.
pub struct StoredSignals {
    pub fixed: Option<Vec<StoredSignal>>,
    pub muxed: Option<StoredMuxed>,
}

/// A stored CAN device.
pub struct StoredDevice {
    pub id: Option<u64>,
    pub extended: Option<bool>,
    pub fd: Option<bool>,
    pub signals: Option<StoredSignals>,
}

/// A stored ADC channel.
pub struct StoredChannel {
    pub name: Option<String>,
    pub channel: Option<u64>,
    pub scale: Option<String>,
    pub offset: Option<String>,
}

/// The configuration as the logger or a file holds it.
pub struct StoredConfig {
    pub can_devices: Option<Vec<StoredDevice>>,
    pub adc_channels: Option<Vec<StoredChannel>>,
}

/// A text, empty when missing.
pub open spec fn or_empty(o: Option<String>) -> Seq<char> {
    match o {
        Some(s) => s@,
        None => Seq::empty(),
    }
}

/// A number's decimal numeral, `missing` when there is none.
pub open spec fn numeral_or(o: Option<u64>, missing: Seq<char>) -> Seq<char> {
    match o {
        Some(n) => decimal_chars(n as nat),
        None => missing,
    }
}

fn text_or_empty(o: &Option<String>) -> (r: String)
    ensures
        r@ == or_empty(*o),
{
    match o {
        Some(s) => s.clone(),
        None => String::new(),
    }
}

fn numeral_or_text(o: Option<u64>, missing: &str) -> (r: String)
    ensures
        r@ == numeral_or(o, missing@),
{
    match o {
        Some(n) => decimal_text(n),
        None => missing.to_owned(),
    }
}

impl SignalForm {
    /// The form filled from a stored signal: missing texts empty, a missing
    /// start `0`, a missing len `1`, missing flags down.
    pub open spec fn filled_from(&self, s: StoredSignal) -> bool {
        &&& self.name@ == or_empty(s.name)
        &&& self.start@ == numeral_or(s.start, "0"@)
        &&& self.len@ == numeral_or(s.len, "1"@)
        &&& self.signed == (s.signed == Some(true))
        &&& self.big_endian == (s.big_endian == Some(true))
        &&& self.scale@ == or_empty(s.scale)
        &&& self.offset@ == or_empty(s.offset)
    }

    /// Fills the form from a stored signal.
    pub fn from_stored(s: &StoredSignal) -> (r: SignalForm)
        ensures
            r.filled_from(*s),
    {
        SignalForm {
            name: text_or_empty(&s.name),
            start: numeral_or_text(s.start, "0"),
            len: numeral_or_text(s.len, "1"),
            signed: s.signed == Some(true),
            big_endian: s.big_endian == Some(true),
            scale: text_or_empty(&s.scale),
            offset: text_or_empty(&s.offset),
        }
    }
}

/// Each form is filled from the stored signal at its place.
pub open spec fn signals_filled(out: Seq<SignalForm>, ss: Seq<StoredSignal>) -> bool {
    out.len() == ss.len() && forall|i: int| 0 <= i < ss.len() ==> #[trigger] out[i].filled_from(ss[i])
}

fn fill_signals(ss: &Vec<StoredSignal>) -> (r: Vec<SignalForm>)
    ensures
        signals_filled(r@, ss@),
{
    let mut out: Vec<SignalForm> = Vec::new();
    let mut i: usize = 0;
    while i < ss.len()
        invariant
            i <= ss@.len(),
            out@.len() == i,
            forall|j: int| 0 <= j < i ==> #[trigger] out@[j].filled_from(ss@[j]),
        decreases ss@.len() - i,
    {
        out.push(SignalForm::from_stored(&ss[i]));
        i += 1;
    }
    out
}

/// The forms of an optional stored list of signals; none makes no form.
pub open spec fn signals_filled_opt(out: Seq<SignalForm>, o: Option<Vec<StoredSignal>>) -> bool {
    match o {
        Some(ss) => signals_filled(out, ss@),
        None => out.len() == 0,
    }
}

fn fill_signals_opt(o: &Option<Vec<StoredSignal>>) -> (r: Vec<SignalForm>)
    ensures
        signals_filled_opt(r@, *o),
{
    match o {
        Some(ss) => fill_signals(ss),
        None => Vec::new(),
    }
}

impl SignalGroupForm {
    /// A missing type value reads `0`, missing signals none.
    pub open spec fn filled_from(&self, g: StoredGroup) -> bool {
        &&& self.type_val@ == numeral_or(g.type_val, "0"@)
        &&& signals_filled_opt(self.signals@, g.signals)
    }

    /// Fills the group from a stored one.
    pub fn from_stored(g: &StoredGroup) -> (r: SignalGroupForm)
        ensures
            r.filled_from(*g),
    {
        SignalGroupForm { type_val: numeral_or_text(g.type_val, "0"), signals: fill_signals_opt(&g.signals) }
    }
}

/// The group forms of an optional stored list of groups.
pub open spec fn groups_filled_opt(out: Seq<SignalGroupForm>, o: Option<Vec<StoredGroup>>) -> bool {
    match o {
        Some(gs) => out.len() == gs@.len() && forall|i: int| 0 <= i < gs@.len() ==> #[trigger] out[i].filled_from(gs@[i]),
        None => out.len() == 0,
    }
}

fn fill_groups_opt(o: &Option<Vec<StoredGroup>>) -> (r: Vec<SignalGroupForm>)
    ensures
        groups_filled_opt(r@, *o),
{
    let mut out: Vec<SignalGroupForm> = Vec::new();
    match o {
        Some(gs) => {
            let mut i: usize = 0;
            while i < gs.len()
                invariant
                    i <= gs@.len(),
                    out@.len() == i,
                    forall|j: int| 0 <= j < i ==> #[trigger] out@[j].filled_from(gs@[j]),
                decreases gs@.len() - i,
            {
                out.push(SignalGroupForm::from_stored(&gs[i]));
                i += 1;
            }
            out
        },
        None => out,
    }
}

impl SignalsForm {
    /// A `Fixed` list wins, whether or not a `Muxed` set is there too;
    /// else a `Muxed` set takes a missing byte as `0` and missing groups as
    /// none; neither makes an empty fixed list.
    pub open spec fn filled_from(&self, s: StoredSignals) -> bool {
        match (s.fixed, s.muxed) {
            (Some(ss), _) => self matches SignalsForm::Fixed(fs) && signals_filled(fs@, ss@),
            (None, Some(m)) => {
                &&& self matches SignalsForm::Muxed { byte, groups }
                &&& self->byte@ == numeral_or(m.byte, "0"@)
                &&& groups_filled_opt(self->groups@, m.groups)
            },
            (None, None) => self matches SignalsForm::Fixed(fs) && fs@.len() == 0,
        }
    }

    /// Fills the signals from stored ones.
    pub fn from_stored(s: &StoredSignals) -> (r: SignalsForm)
        ensures
            r.filled_from(*s),
    {
        match &s.fixed {
            Some(ss) => SignalsForm::Fixed(fill_signals(ss)),
            None => match &s.muxed {
                Some(m) => SignalsForm::Muxed { byte: numeral_or_text(m.byte, "0"), groups: fill_groups_opt(&m.groups) },
                None => SignalsForm::Fixed(Vec::new()),
            },
        }
    }
}

/// The text of a stored CAN id: `0x` and its upper-case hex numeral, empty
/// when missing.
pub open spec fn id_text(id: Option<u64>) -> Seq<char> {
    match id {
        Some(n) => "0x"@ + hex_numeral(n as nat),
        None => Seq::empty(),
    }
}

impl CanDeviceForm {
    /// The id in hex, missing flags down, missing signals an empty fixed
    /// list.
    pub open spec fn filled_from(&self, d: StoredDevice) -> bool {
        &&& self.id@ == id_text(d.id)
        &&& self.extended == (d.extended == Some(true))
        &&& self.fd == (d.fd == Some(true))
        &&& match d.signals {
            Some(s) => self.signals.filled_from(s),
            None => self.signals matches SignalsForm::Fixed(fs) && fs@.len() == 0,
        }
    }

    /// Fills the device from a stored one.
    pub fn from_stored(d: &StoredDevice) -> (r: CanDeviceForm)
        ensures
            r.filled_from(*d),
    {
        let id = match d.id {
            Some(n) => {
                let mut t = "0x".to_owned();
                let h = hex_upper_text(n);
                t.append(h.as_str());
                t
            },
            None => String::new(),
        };
        let signals = match &d.signals {
            Some(s) => SignalsForm::from_stored(s),
            None => SignalsForm::Fixed(Vec::new()),
        };
        CanDeviceForm { id, extended: d.extended == Some(true), fd: d.fd == Some(true), signals }
    }
}

impl AdcChannelForm {
    /// Missing texts, and a missing channel, empty.
    pub open spec fn filled_from(&self, c: StoredChannel) -> bool {
        &&& self.name@ == or_empty(c.name)
        &&& self.channel@ == numeral_or(c.channel, ""@)
        &&& self.scale@ == or_empty(c.scale)
        &&& self.offset@ == or_empty(c.offset)
    }

    /// Fills the channel from a stored one.
    pub fn from_stored(c: &StoredChannel) -> (r: AdcChannelForm)
        ensures
            r.filled_from(*c),
    {
        AdcChannelForm {
            name: text_or_empty(&c.name),
            channel: numeral_or_text(c.channel, ""),
            scale: text_or_empty(&c.scale),
            offset: text_or_empty(&c.offset),
        }
    }
}

impl ConfigForm {
    /// One form per stored device and channel, in order; a missing list
    /// gives none.
    pub open spec fn filled_from(&self, c: StoredConfig) -> bool {
        &&& match c.can_devices {
            Some(ds) => self.can_devices@.len() == ds@.len()
                && forall|i: int| 0 <= i < ds@.len() ==> #[trigger] self.can_devices@[i].filled_from(ds@[i]),
            None => self.can_devices@.len() == 0,
        }
        &&& match c.adc_channels {
            Some(cs) => self.adc_channels@.len() == cs@.len()
                && forall|i: int| 0 <= i < cs@.len() ==> #[trigger] self.adc_channels@[i].filled_from(cs@[i]),
            None => self.adc_channels@.len() == 0,
        }
    }

    /// Fills the whole form from a stored configuration.
    pub fn from_stored(c: &StoredConfig) -> (r: ConfigForm)
        ensures
            r.filled_from(*c),
    {
        let mut can_devices: Vec<CanDeviceForm> = Vec::new();
        if let Some(ds) = &c.can_devices {
            let mut i: usize = 0;
            while i < ds.len()
                invariant
                    i <= ds@.len(),
                    can_devices@.len() == i,
                    forall|j: int| 0 <= j < i ==> #[trigger] can_devices@[j].filled_from(ds@[j]),
                decreases ds@.len() - i,
            {
                can_devices.push(CanDeviceForm::from_stored(&ds[i]));
                i += 1;
            }
        }
        let mut adc_channels: Vec<AdcChannelForm> = Vec::new();
        if let Some(cs) = &c.adc_channels {
            let mut k: usize = 0;
            while k < cs.len()
                invariant
                    k <= cs@.len(),
                    adc_channels@.len() == k,
                    forall|j: int| 0 <= j < k ==> #[trigger] adc_channels@[j].filled_from(cs@[j]),
                decreases cs@.len() - k,
            {
                adc_channels.push(AdcChannelForm::from_stored(&cs[k]));
                k += 1;
            }
        }
        ConfigForm { can_devices, adc_channels }
    }
}


/// A numeral of digit characters of base `radix` (at most 16) reads as the
/// number it writes.
proof fn lemma_digit_reads(d: nat, radix: nat)
    requires
        d < radix <= 16,
    ensures
        digit_value(upper_hex_digit(d), radix) == Some(d),
        !is_space(upper_hex_digit(d)),
        upper_hex_digit(d) != '+',
{
    let c = upper_hex_digit(d);
    if d < 10 {
        assert(c as u32 == 48 + d);
    } else {
        assert(c as u32 == 55 + d);
    }
}

proof fn lemma_decimal_reads(n: nat)
    ensures
        digits_value(decimal_chars(n), 10) == Some(n),
        decimal_chars(n).len() > 0,
        !is_space(decimal_chars(n)[0]),
        decimal_chars(n)[0] != '+',
        !is_space(decimal_chars(n).last()),
    decreases n,
{
    lemma_digit_reads(n % 10, 10);
    assert(digit_char(n % 10) == upper_hex_digit(n % 10));
    let s = decimal_chars(n);
    if n < 10 {
        assert(s.drop_last() =~= Seq::<char>::empty());
        assert(digits_value(s.drop_last(), 10) == Some(0nat));
    } else {
        lemma_decimal_reads(n / 10);
        assert(s.drop_last() =~= decimal_chars(n / 10));
        assert(s.last() == digit_char(n % 10));
        assert((n / 10) * 10 + n % 10 == n);
    }
}

proof fn lemma_hex_reads(n: nat)
    ensures
        digits_value(hex_numeral(n), 16) == Some(n),
        hex_numeral(n).len() > 0,
        hex_numeral(n)[0] != '+',
        !is_space(hex_numeral(n).last()),
    decreases n,
{
    lemma_digit_reads(n % 16, 16);
    let s = hex_numeral(n);
    if n < 16 {
        assert(s.drop_last() =~= Seq::<char>::empty());
        assert(digits_value(s.drop_last(), 16) == Some(0nat));
    } else {
        lemma_hex_reads(n / 16);
        assert(s.drop_last() =~= hex_numeral(n / 16));
        assert(s.last() == upper_hex_digit(n % 16));
        assert((n / 16) * 16 + n % 16 == n);
    }
}

proof fn lemma_trim_unchanged(s: Seq<char>)
    requires
        s.len() > 0,
        !is_space(s[0]),
        !is_space(s.last()),
    ensures
        trim(s) == s,
{
}

/// A number written in a decimal field of the form reads back as itself.
pub proof fn lemma_numeral_reads_back(n: nat, max: nat)
    requires
        n <= max,
    ensures
        field_value(decimal_chars(n), max) == Some(n),
{
    lemma_decimal_reads(n);
    lemma_trim_unchanged(decimal_chars(n));
}

/// A stored CAN id, as the form shows it, reads back as the same id.
pub proof fn lemma_id_reads_back(n: u32)
    ensures
        can_id_value(id_text(Some(n as u64))) == Some(n as nat),
{
    reveal_strlit("0x");
    let t = id_text(Some(n as u64));
    lemma_hex_reads(n as nat);
    assert(t[0] == '0' && t[1] == 'x');
    assert(!is_space(t[0]));
    assert(t.last() == hex_numeral(n as nat).last());
    lemma_trim_unchanged(t);
    assert(t.skip(2) =~= hex_numeral(n as nat));
}


/// No item has an error: the list has none.
proof fn lemma_no_error<T>(xs: Seq<T>, err: spec_fn(T, int) -> Option<Seq<char>>)
    requires
        forall|i: int| 0 <= i < xs.len() ==> (#[trigger] err(xs[i], i)) is None,
    ensures
        first_error(xs, err) is None,
    decreases xs.len(),
{
    if xs.len() > 0 {
        let ys = xs.drop_last();
        assert forall|i: int| 0 <= i < ys.len() implies (#[trigger] err(ys[i], i)) is None by {
            assert(ys[i] == xs[i]);
        }
        lemma_no_error(ys, err);
        assert(err(xs[xs.len() - 1], xs.len() - 1) is None);
    }
}

/// A stored float text as `f32` writes it: not empty, nothing to trim, a
/// float.
pub open spec fn float_text_ok(o: Option<String>) -> bool {
    match o {
        Some(t) => t@.len() > 0 && trim(t@) == t@ && float_syntax(t@),
        None => true,
    }
}

/// A number, if there is one, is at most `max`.
pub open spec fn fits(o: Option<u64>, max: nat) -> bool {
    match o {
        Some(n) => n <= max,
        None => true,
    }
}

impl StoredSignal {
    /// Start and len fit a `usize`; scale and offset are float texts.
    pub open spec fn storable(&self) -> bool {
        &&& fits(self.start, usize::MAX as nat)
        &&& fits(self.len, usize::MAX as nat)
        &&& float_text_ok(self.scale)
        &&& float_text_ok(self.offset)
    }
}

/// Every stored signal is storable.
pub open spec fn all_storable(ss: Seq<StoredSignal>) -> bool {
    forall|i: int| 0 <= i < ss.len() ==> (#[trigger] ss[i]).storable()
}

impl StoredGroup {
    pub open spec fn storable(&self) -> bool {
        &&& fits(self.type_val, u8::MAX as nat)
        &&& match self.signals {
            Some(ss) => all_storable(ss@),
            None => true,
        }
    }
}

impl StoredSignals {
    pub open spec fn storable(&self) -> bool {
        match (self.fixed, self.muxed) {
            (Some(ss), _) => all_storable(ss@),
            (None, Some(m)) => {
                &&& fits(m.byte, usize::MAX as nat)
                &&& match m.groups {
                    Some(gs) => forall|i: int| 0 <= i < gs@.len() ==> (#[trigger] gs@[i]).storable(),
                    None => true,
                }
            },
            (None, None) => true,
        }
    }
}

impl StoredDevice {
    /// An id of 32 bits is there, and the signals are storable.
    pub open spec fn storable(&self) -> bool {
        &&& self.id matches Some(n) && n <= u32::MAX
        &&& match self.signals {
            Some(s) => s.storable(),
            None => true,
        }
    }
}

impl StoredChannel {
    /// A channel number of 8 bits is there; scale and offset are float
    /// texts.
    pub open spec fn storable(&self) -> bool {
        &&& self.channel matches Some(n) && n <= u8::MAX
        &&& float_text_ok(self.scale)
        &&& float_text_ok(self.offset)
    }
}

impl StoredConfig {
    /// Every device and channel is storable.
    pub open spec fn storable(&self) -> bool {
        &&& match self.can_devices {
            Some(ds) => forall|i: int| 0 <= i < ds@.len() ==> (#[trigger] ds@[i]).storable(),
            None => true,
        }
        &&& match self.adc_channels {
            Some(cs) => forall|i: int| 0 <= i < cs@.len() ==> (#[trigger] cs@[i]).storable(),
            None => true,
        }
    }
}

proof fn lemma_float_text_reads_back(o: Option<String>, f: Seq<char>)
    requires
        float_text_ok(o),
        f == or_empty(o),
    ensures
        float_field(f) == Some(text_of(o)),
{
    if o is None {
        assert(trim(f) =~= Seq::<char>::empty()) by {
            assert(f =~= Seq::<char>::empty());
        }
    }
}

/// A stored signal loaded into the form reads back as the same signal: no
/// field is refused, and start, len, scale and offset are the stored ones
/// (a missing start 0, a missing len 1).
pub proof fn lemma_signal_reads_back(st: StoredSignal, f: SignalForm, label: Seq<char>)
    requires
        st.storable(),
        f.filled_from(st),
    ensures
        f.error(label) is None,
        field_value(f.start@, usize::MAX as nat) == Some(match st.start { Some(n) => n as nat, None => 0 }),
        field_value(f.len@, usize::MAX as nat) == Some(match st.len { Some(n) => n as nat, None => 1 }),
        float_field(f.scale@) == Some(text_of(st.scale)),
        float_field(f.offset@) == Some(text_of(st.offset)),
{
    reveal_strlit("0");
    reveal_strlit("1");
    match st.start {
        Some(n) => lemma_numeral_reads_back(n as nat, usize::MAX as nat),
        None => lemma_numeral_reads_back(0, usize::MAX as nat),
    }
    match st.len {
        Some(n) => lemma_numeral_reads_back(n as nat, usize::MAX as nat),
        None => lemma_numeral_reads_back(1, usize::MAX as nat),
    }
    assert(decimal_chars(0) =~= "0"@);
    assert(decimal_chars(1) =~= "1"@);
    lemma_float_text_reads_back(st.scale, f.scale@);
    lemma_float_text_reads_back(st.offset, f.offset@);
}

proof fn lemma_signals_accepted(ss: Seq<StoredSignal>, fs: Seq<SignalForm>, prefix: Seq<char>)
    requires
        all_storable(ss),
        signals_filled(fs, ss),
    ensures
        signals_error(fs, prefix) is None,
{
    let err = |f: SignalForm, i: int| f.error(numbered(prefix, i));
    assert forall|i: int| 0 <= i < fs.len() implies (#[trigger] err(fs[i], i)) is None by {
        assert(fs[i].filled_from(ss[i]));
        lemma_signal_reads_back(ss[i], fs[i], numbered(prefix, i));
    }
    lemma_no_error(fs, err);
}

proof fn lemma_group_accepted(g: StoredGroup, f: SignalGroupForm, label: Seq<char>)
    requires
        g.storable(),
        f.filled_from(g),
    ensures
        f.error(label) is None,
{
    reveal_strlit("0");
    match g.type_val {
        Some(n) => lemma_numeral_reads_back(n as nat, u8::MAX as nat),
        None => {
            lemma_numeral_reads_back(0, u8::MAX as nat);
            assert(decimal_chars(0) =~= "0"@);
        },
    }
    match g.signals {
        Some(ss) => lemma_signals_accepted(ss@, f.signals@, label + " signal "@),
        None => lemma_no_error(f.signals@, |f: SignalForm, i: int| f.error(numbered(label + " signal "@, i))),
    }
}

proof fn lemma_signals_form_accepted(s: StoredSignals, f: SignalsForm, label: Seq<char>)
    requires
        s.storable(),
        f.filled_from(s),
    ensures
        f.error(label) is None,
{
    reveal_strlit("0");
    match (s.fixed, s.muxed, f) {
        (Some(ss), _, SignalsForm::Fixed(fs)) => lemma_signals_accepted(ss@, fs@, label + " signal "@),
        (None, Some(StoredMuxed { byte, groups: gs }), SignalsForm::Muxed { byte: b, groups }) => {
            match byte {
                Some(n) => lemma_numeral_reads_back(n as nat, usize::MAX as nat),
                None => {
                    lemma_numeral_reads_back(0, usize::MAX as nat);
                    assert(decimal_chars(0) =~= "0"@);
                },
            }
            let err = |g: SignalGroupForm, i: int| g.error(numbered(label + " group "@, i));
            match gs {
                Some(gv) => {
                    assert forall|i: int| 0 <= i < groups@.len() implies (#[trigger] err(groups@[i], i)) is None by {
                        assert(groups@[i].filled_from(gv@[i]));
                        lemma_group_accepted(gv@[i], groups@[i], numbered(label + " group "@, i));
                    }
                },
                None => {},
            }
            lemma_no_error(groups@, err);
        },
        (None, None, SignalsForm::Fixed(fs)) => {
            lemma_no_error(fs@, |f: SignalForm, i: int| f.error(numbered(label + " signal "@, i)));
        },
        _ => {},
    }
}

/// A stored ADC channel loaded into the form reads back as the same
/// channel.
pub proof fn lemma_channel_reads_back(st: StoredChannel, f: AdcChannelForm, label: Seq<char>)
    requires
        st.storable(),
        f.filled_from(st),
    ensures
        f.error(label) is None,
        field_value(f.channel@, u8::MAX as nat) == Some(st.channel->0 as nat),
        float_field(f.scale@) == Some(text_of(st.scale)),
        float_field(f.offset@) == Some(text_of(st.offset)),
{
    lemma_numeral_reads_back(st.channel->0 as nat, u8::MAX as nat);
    lemma_float_text_reads_back(st.scale, f.scale@);
    lemma_float_text_reads_back(st.offset, f.offset@);
}

/// A storable configuration loaded into the form is accepted as it stands:
/// pushing back what was fetched refuses no field.
pub proof fn lemma_loaded_form_accepted(c: StoredConfig, f: ConfigForm)
    requires
        c.storable(),
        f.filled_from(c),
    ensures
        f.error() is None,
{
    let derr = |d: CanDeviceForm, i: int| d.error(numbered("CAN device "@, i));
    let cerr = |a: AdcChannelForm, i: int| a.error(numbered("ADC channel "@, i));
    match c.can_devices {
        Some(ds) => {
            assert forall|i: int| 0 <= i < f.can_devices@.len() implies (#[trigger] derr(f.can_devices@[i], i)) is None by {
                let d = ds@[i];
                let fd = f.can_devices@[i];
                assert(d.storable());
                assert(fd.filled_from(d));
                lemma_id_reads_back(d.id->0 as u32);
                match d.signals {
                    Some(s) => lemma_signals_form_accepted(s, fd.signals, numbered("CAN device "@, i)),
                    None => lemma_signals_form_accepted(StoredSignals { fixed: None, muxed: None }, fd.signals, numbered("CAN device "@, i)),
                }
            }
        },
        None => {},
    }
    lemma_no_error(f.can_devices@, derr);
    match c.adc_channels {
        Some(cs) => {
            assert forall|i: int| 0 <= i < f.adc_channels@.len() implies (#[trigger] cerr(f.adc_channels@[i], i)) is None by {
                assert(cs@[i].storable());
                assert(f.adc_channels@[i].filled_from(cs@[i]));
                lemma_channel_reads_back(cs@[i], f.adc_channels@[i], numbered("ADC channel "@, i));
            }
        },
        None => {},
    }
    lemma_no_error(f.adc_channels@, cerr);
}


impl SignalForm {
    /// A new signal row: no name, start `0`, len `1`, flags down, no scale
    /// or offset.
    pub fn new() -> (r: SignalForm)
        ensures
            r.name@ == ""@ && r.start@ == "0"@ && r.len@ == "1"@,
            !r.signed && !r.big_endian,
            r.scale@ == ""@ && r.offset@ == ""@,
    {
        SignalForm {
            name: "".to_owned(),
            start: "0".to_owned(),
            len: "1".to_owned(),
            signed: false,
            big_endian: false,
            scale: "".to_owned(),
            offset: "".to_owned(),
        }
    }
}

impl SignalGroupForm {
    /// A new multiplexer group: type value `0`, no signal.
    pub fn new() -> (r: SignalGroupForm)
        ensures
            r.type_val@ == "0"@,
            r.signals@.len() == 0,
    {
        SignalGroupForm { type_val: "0".to_owned(), signals: Vec::new() }
    }
}

/// The number of signals of the groups `gs`.
pub open spec fn group_signals(gs: Seq<SignalGroupForm>) -> nat
    decreases gs.len(),
{
    if gs.len() == 0 { 0 } else { group_signals(gs.drop_last()) + gs.last().signals@.len() }
}

impl SignalsForm {
    /// Multiplexed signals with byte `0` and no group.
    pub fn empty_muxed() -> (r: SignalsForm)
        ensures
            r matches SignalsForm::Muxed { byte, groups } && byte@ == "0"@ && groups@.len() == 0,
    {
        SignalsForm::Muxed { byte: "0".to_owned(), groups: Vec::new() }
    }

    /// The number of signals: the fixed ones, or those of all groups.
    pub open spec fn count(&self) -> nat {
        match self {
            SignalsForm::Fixed(fs) => fs@.len(),
            SignalsForm::Muxed { groups, .. } => group_signals(groups@),
        }
    }

    /// The number of signals (held at `usize::MAX`, which no form in memory
    /// reaches).
    pub fn signal_count(&self) -> (r: usize)
        ensures
            self.count() <= usize::MAX ==> r == self.count(),
    {
        match self {
            SignalsForm::Fixed(fs) => fs.len(),
            SignalsForm::Muxed { groups, .. } => {
                let mut total: usize = 0;
                let mut i: usize = 0;
                let mut capped = false;
                while i < groups.len()
                    invariant
                        i <= groups@.len(),
                        !capped ==> total == group_signals(groups@.take(i as int)),
                        capped ==> group_signals(groups@.take(i as int)) > usize::MAX,
                    decreases groups@.len() - i,
                {
                    assert(groups@.take(i + 1).drop_last() =~= groups@.take(i as int));
                    let n = groups[i].signals.len();
                    if capped || total > usize::MAX - n {
                        capped = true;
                        total = usize::MAX;
                    } else {
                        total = total + n;
                    }
                    i += 1;
                }
                assert(groups@.take(groups@.len() as int) =~= groups@);
                total
            },
        }
    }
}

impl CanDeviceForm {
    /// A new device row: id `0`, flags down, no fixed signal.
    pub fn new() -> (r: CanDeviceForm)
        ensures
            r.id@ == "0"@,
            !r.extended && !r.fd,
            r.signals matches SignalsForm::Fixed(fs) && fs@.len() == 0,
    {
        CanDeviceForm { id: "0".to_owned(), extended: false, fd: false, signals: SignalsForm::Fixed(Vec::new()) }
    }
}

impl AdcChannelForm {
    /// A new channel row: no name, channel `0`, no scale or offset.
    pub fn new() -> (r: AdcChannelForm)
        ensures
            r.name@ == ""@ && r.channel@ == "0"@ && r.scale@ == ""@ && r.offset@ == ""@,
    {
        AdcChannelForm { name: "".to_owned(), channel: "0".to_owned(), scale: "".to_owned(), offset: "".to_owned() }
    }
}


/// The lower-case hex digit of `d < 16`.
pub open spec fn lower_hex_digit(d: nat) -> char {
    if d < 10 { ((48 + d) as u8) as char } else { ((87 + d) as u8) as char }
}

/// The lower-case hex numeral of `n`, without leading zeros (`{:x}`).
pub open spec fn lower_hex_numeral(n: nat) -> Seq<char>
    decreases n,
{
    if n < 16 { seq![lower_hex_digit(n)] } else { lower_hex_numeral(n / 16).push(lower_hex_digit(n % 16)) }
}

proof fn lemma_lower_digit_reads(d: nat)
    requires
        d < 16,
    ensures
        digit_value(lower_hex_digit(d), 16) == Some(d),
        !is_space(lower_hex_digit(d)),
        lower_hex_digit(d) != '+',
{
    let c = lower_hex_digit(d);
    if d < 10 {
        assert(c as u32 == 48 + d);
    } else {
        assert(c as u32 == 87 + d);
    }
}

proof fn lemma_lower_hex_reads(n: nat)
    ensures
        digits_value(lower_hex_numeral(n), 16) == Some(n),
        lower_hex_numeral(n).len() > 0,
        lower_hex_numeral(n)[0] != '+',
        !is_space(lower_hex_numeral(n).last()),
    decreases n,
{
    lemma_lower_digit_reads(n % 16);
    let s = lower_hex_numeral(n);
    if n < 16 {
        assert(s.drop_last() =~= Seq::<char>::empty());
        assert(digits_value(s.drop_last(), 16) == Some(0nat));
    } else {
        lemma_lower_hex_reads(n / 16);
        assert(s.drop_last() =~= lower_hex_numeral(n / 16));
        assert(s.last() == lower_hex_digit(n % 16));
        assert((n / 16) * 16 + n % 16 == n);
    }
}

proof fn lemma_digits_all(s: Seq<char>, radix: nat)
    requires
        digits_value(s, radix) is Some,
    ensures
        forall|i: int| 0 <= i < s.len() ==> digit_value(#[trigger] s[i], radix) is Some,
    decreases s.len(),
{
    if s.len() > 0 {
        lemma_digits_all(s.drop_last(), radix);
        assert forall|i: int| 0 <= i < s.len() implies digit_value(#[trigger] s[i], radix) is Some by {
            if i < s.len() - 1 {
                assert(s[i] == s.drop_last()[i]);
            }
        }
    }
}

/// A CAN id written `0x` and lower-case hex (`0x{n:x}`), or as a decimal
/// numeral, reads back as the same id, as the upper-case form does (see
/// `lemma_id_reads_back`).
pub proof fn lemma_other_id_forms_read_back(n: u32)
    ensures
        can_id_value("0x"@ + lower_hex_numeral(n as nat)) == Some(n as nat),
        can_id_value(decimal_chars(n as nat)) == Some(n as nat),
{
    reveal_strlit("0x");
    let t = "0x"@ + lower_hex_numeral(n as nat);
    lemma_lower_hex_reads(n as nat);
    assert(t[0] == '0' && t[1] == 'x');
    assert(t.last() == lower_hex_numeral(n as nat).last());
    lemma_trim_unchanged(t);
    assert(t.skip(2) =~= lower_hex_numeral(n as nat));

    let d = decimal_chars(n as nat);
    lemma_decimal_reads(n as nat);
    lemma_trim_unchanged(d);
    lemma_digits_all(d, 10);
    if d.len() >= 2 {
        assert(digit_value(d[1], 10) is Some);
        assert(d[1] != 'x' && d[1] != 'X');
    }
}


/// The signal at `i` of a list, or of group `group` of multiplexed signals,
/// can be reached.
pub open spec fn signal_exists(f: SignalsForm, group: Option<usize>, i: usize) -> bool {
    match (f, group) {
        (SignalsForm::Fixed(fs), None) => i < fs@.len(),
        (SignalsForm::Muxed { groups, .. }, Some(g)) => g < groups@.len() && i < groups@[g as int].signals@.len(),
        _ => false,
    }
}

/// `after` is `before` with the signals of the addressed list changed by
/// `edit` (fixed signals for no group, group `group`'s otherwise); nothing
/// else changes.
pub open spec fn signals_edited(
    before: SignalsForm,
    after: SignalsForm,
    group: Option<usize>,
    edit: spec_fn(Seq<SignalForm>) -> Seq<SignalForm>,
) -> bool {
    match (before, group) {
        (SignalsForm::Fixed(fs), None) => after matches SignalsForm::Fixed(ws) && ws@ == edit(fs@),
        (SignalsForm::Muxed { byte, groups }, Some(g)) => after matches SignalsForm::Muxed { byte: b2, groups: gs2 } && {
            &&& b2 == byte
            &&& gs2@.len() == groups@.len()
            &&& forall|j: int| 0 <= j < groups@.len() && j != g ==> gs2@[j] == groups@[j]
            &&& gs2@[g as int].type_val == groups@[g as int].type_val
            &&& gs2@[g as int].signals@ == edit(groups@[g as int].signals@)
        },
        _ => false,
    }
}

impl SignalsForm {
    fn take_signal(&mut self, group: Option<usize>, i: usize) -> (r: SignalForm)
        requires
            signal_exists(*old(self), group, i),
        ensures
            signals_edited(*old(self), *final(self), group, |v: Seq<SignalForm>| v.remove(i as int)),
            r == (match (*old(self), group) {
                (SignalsForm::Fixed(fs), None) => fs@[i as int],
                (SignalsForm::Muxed { groups, .. }, Some(g)) => groups@[g as int].signals@[i as int],
                _ => r,
            }),
    {
        match self {
            SignalsForm::Fixed(fs) => fs.remove(i),
            SignalsForm::Muxed { groups, .. } => {
                let g = match group {
                    Some(g) => g,
                    None => {
                        assert(false);
                        0
                    },
                };
                let mut grp = groups.remove(g);
                let sig = grp.signals.remove(i);
                groups.insert(g, grp);
                sig
            },
        }
    }

    fn put_signal(&mut self, group: Option<usize>, i: usize, sig: SignalForm)
        requires
            match (*old(self), group) {
                (SignalsForm::Fixed(fs), None) => i <= fs@.len(),
                (SignalsForm::Muxed { groups, .. }, Some(g)) => g < groups@.len() && i <= groups@[g as int].signals@.len(),
                _ => false,
            },
        ensures
            signals_edited(*old(self), *final(self), group, |v: Seq<SignalForm>| v.insert(i as int, sig)),
    {
        match self {
            SignalsForm::Fixed(fs) => fs.insert(i, sig),
            SignalsForm::Muxed { groups, .. } => {
                let g = match group {
                    Some(g) => g,
                    None => {
                        assert(false);
                        0
                    },
                };
                let mut grp = groups.remove(g);
                grp.signals.insert(i, sig);
                groups.insert(g, grp);
            },
        }
    }

    /// Removes the signal at `i` of the fixed list (no group) or of group
    /// `group`; a group given for fixed signals, or none for multiplexed
    /// ones, changes nothing.
    pub fn remove_signal(&mut self, group: Option<usize>, i: usize)
        requires
            match (*old(self), group) {
                (SignalsForm::Fixed(fs), None) => i < fs@.len(),
                (SignalsForm::Muxed { groups, .. }, Some(g)) => g < groups@.len() && i < groups@[g as int].signals@.len(),
                _ => true,
            },
        ensures
            signal_exists(*old(self), group, i) ==> signals_edited(*old(self), *final(self), group, |v: Seq<SignalForm>| v.remove(i as int)),
            !signal_exists(*old(self), group, i) ==> *final(self) == *old(self),
    {
        let exists = match (&*self, group) {
            (SignalsForm::Fixed(_), None) => true,
            (SignalsForm::Muxed { .. }, Some(_)) => true,
            _ => false,
        };
        if exists {
            let _ = self.take_signal(group, i);
        }
    }

    /// Sets whether the signal at `i` (of the fixed list, or of group
    /// `group`) is signed, and whether it is big-endian; a group given for
    /// fixed signals, or none for multiplexed ones, changes nothing.
    pub fn set_signal_flags(&mut self, group: Option<usize>, i: usize, signed: bool, big_endian: bool)
        requires
            match (*old(self), group) {
                (SignalsForm::Fixed(fs), None) => i < fs@.len(),
                (SignalsForm::Muxed { groups, .. }, Some(g)) => g < groups@.len() && i < groups@[g as int].signals@.len(),
                _ => true,
            },
        ensures
            signal_exists(*old(self), group, i) ==> signals_edited(*old(self), *final(self), group, |v: Seq<SignalForm>| v.update(
                i as int,
                SignalForm { signed, big_endian, ..v[i as int] },
            )),
            !signal_exists(*old(self), group, i) ==> *final(self) == *old(self),
    {
        let exists = match (&*self, group) {
            (SignalsForm::Fixed(_), None) => true,
            (SignalsForm::Muxed { .. }, Some(_)) => true,
            _ => false,
        };
        if exists {
            let ghost before = *self;
            let mut sig = self.take_signal(group, i);
            sig.signed = signed;
            sig.big_endian = big_endian;
            let ghost mid = *self;
            self.put_signal(group, i, sig);
            proof {
                match (before, group) {
                    (SignalsForm::Fixed(fs), None) => {
                        assert(fs@.remove(i as int).insert(i as int, sig) =~= fs@.update(i as int, sig));
                    },
                    (SignalsForm::Muxed { groups, .. }, Some(g)) => {
                        let v = groups@[g as int].signals@;
                        assert(v.remove(i as int).insert(i as int, sig) =~= v.update(i as int, sig));
                    },
                    _ => {},
                }
            }
        }
    }
}

} // verus!
