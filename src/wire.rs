use vstd::prelude::*;
use vstd::string::StrSliceExecFns;
use vstd::utf8::{
    decode_utf8, decode_utf8_encode_utf8, encode_utf8, encode_utf8_decode_utf8,
    encode_utf8_valid_utf8, valid_utf8,
};

use crate::sequence::{
    copy_samples, AnalogSeq, ChannelSequence, DDSSeq, DeviceDependentData, DigitalSeq, FreqFBSeq,
    PulseGenSeq, RS485Seq, Sequence, VCOSeq,
};

verus! {

/// Why a wire payload could not be decoded.
#[derive(Clone, Copy, PartialEq, Eq, Structural, Debug)]
pub enum ParseError {
    /// The command at this position is not valid UTF-8.
    InvalidUtf8 { command: usize },
}

/// Wire levels read as booleans: zero is low, anything else high.
pub open spec fn levels_of(wire: Seq<u8>) -> Seq<bool> {
    wire.map_values(|u: u8| u != 0)
}

/// Booleans written as wire levels: 1 for high, 0 for low.
pub open spec fn wire_levels(levels: Seq<bool>) -> Seq<u8> {
    levels.map_values(|b: bool| if b { 1u8 } else { 0u8 })
}

/// Every wire level is 0 or 1.
pub open spec fn is_binary(wire: Seq<u8>) -> bool {
    forall|i: int| 0 <= i < wire.len() ==> wire[i] <= 1
}

/// Wire commands read as text, or the position of the first one that is not
/// valid UTF-8.
pub open spec fn commands_of(wire: Seq<Seq<u8>>) -> Result<Seq<Seq<char>>, ParseError>
    decreases wire.len(),
{
    if wire.len() == 0 {
        Ok(seq![])
    } else {
        match commands_of(wire.drop_last()) {
            Err(e) => Err(e),
            Ok(p) => if valid_utf8(wire.last()) {
                Ok(p.push(decode_utf8(wire.last())))
            } else {
                Err(ParseError::InvalidUtf8 { command: (wire.len() - 1) as usize })
            },
        }
    }
}

/// Text commands written as their UTF-8 bytes.
pub open spec fn wire_commands(cmds: Seq<Seq<char>>) -> Seq<Seq<u8>> {
    cmds.map_values(|c: Seq<char>| encode_utf8(c))
}

pub open spec fn byte_views(v: Seq<Vec<u8>>) -> Seq<Seq<u8>> {
    v.map_values(|b: Vec<u8>| b@)
}

pub open spec fn string_views(v: Seq<String>) -> Seq<Seq<char>> {
    v.map_values(|s: String| s@)
}

pub open spec fn commands_view(r: Result<Vec<String>, ParseError>) -> Result<
    Seq<Seq<char>>,
    ParseError,
> {
    match r {
        Ok(v) => Ok(string_views(v@)),
        Err(e) => Err(e),
    }
}

/// Decodes wire levels: zero is low, anything else high.
pub fn deserialize_bool(wire: &Vec<u8>) -> (r: Vec<bool>)
    ensures
        r@ == levels_of(wire@),
{
    let mut r: Vec<bool> = Vec::new();
    let mut i: usize = 0;
    while i < wire.len()
        invariant
            i <= wire@.len(),
            r@ == levels_of(wire@.take(i as int)),
        decreases wire@.len() - i,
    {
        r.push(wire[i] != 0);
        i = i + 1;
        assert(levels_of(wire@.take(i as int)) =~= levels_of(wire@.take(i - 1)).push(
            wire@[i - 1] != 0,
        ));
    }
    assert(wire@.take(i as int) =~= wire@);
    r
}

/// Encodes levels for the wire: 1 for high, 0 for low.
pub fn serialize_bool(levels: &Vec<bool>) -> (r: Vec<u8>)
    ensures
        r@ == wire_levels(levels@),
{
    let mut r: Vec<u8> = Vec::new();
    let mut i: usize = 0;
    while i < levels.len()
        invariant
            i <= levels@.len(),
            r@ == wire_levels(levels@.take(i as int)),
        decreases levels@.len() - i,
    {
        let b: u8 = if levels[i] {
            1
        } else {
            0
        };
        r.push(b);
        i = i + 1;
        assert(wire_levels(levels@.take(i as int)) =~= wire_levels(levels@.take(i - 1)).push(b));
    }
    assert(levels@.take(i as int) =~= levels@);
    r
}

/// Relies on `String::from_utf8`: it succeeds exactly on valid UTF-8, and the
/// string it returns holds the characters that the bytes encode.
#[verifier::external_body]
fn string_from_utf8(bytes: &Vec<u8>) -> (r: Option<String>)
    ensures
        r is Some <==> valid_utf8(bytes@),
        r matches Some(s) ==> s@ == decode_utf8(bytes@),
{
    String::from_utf8(bytes.clone()).ok()
}

/// Decodes wire commands as UTF-8 text; a command that is not valid UTF-8
/// is reported, never dropped.
pub fn deserialize_str(wire: &Vec<Vec<u8>>) -> (r: Result<Vec<String>, ParseError>)
    ensures
        commands_view(r) == commands_of(byte_views(wire@)),
{
    let mut r: Vec<String> = Vec::new();
    let mut i: usize = 0;
    assert(byte_views(wire@).take(0) =~= Seq::<Seq<u8>>::empty());
    assert(string_views(r@) =~= Seq::<Seq<char>>::empty());
    while i < wire.len()
        invariant
            i <= wire@.len(),
            commands_of(byte_views(wire@).take(i as int)) == Ok::<_, ParseError>(
                string_views(r@),
            ),
        decreases wire@.len() - i,
    {
        let ghost bv = byte_views(wire@);
        assert(bv.take(i + 1).drop_last() =~= bv.take(i as int));
        assert(bv.take(i + 1).last() == wire@[i as int]@);
        match string_from_utf8(&wire[i]) {
            Some(s) => {
                assert(string_views(r@.push(s)) =~= string_views(r@).push(s@));
                r.push(s);
            },
            None => {
                proof {
                    lemma_command_error_persists(bv, i + 1);
                }
                return Err(ParseError::InvalidUtf8 { command: i });
            },
        }
        i = i + 1;
    }
    assert(byte_views(wire@).take(i as int) =~= byte_views(wire@));
    Ok(r)
}

proof fn lemma_command_error_persists(wire: Seq<Seq<u8>>, i: int)
    requires
        0 <= i <= wire.len(),
        commands_of(wire.take(i)) is Err,
    ensures
        commands_of(wire) == commands_of(wire.take(i)),
    decreases wire.len(),
{
    if i == wire.len() {
        assert(wire.take(i) =~= wire);
    } else {
        assert(wire.drop_last().take(i) =~= wire.take(i));
        lemma_command_error_persists(wire.drop_last(), i);
    }
}

/// Encodes text commands as their UTF-8 bytes.
pub fn serialize_str(cmds: &Vec<String>) -> (r: Vec<Vec<u8>>)
    ensures
        byte_views(r@) == wire_commands(string_views(cmds@)),
{
    let mut r: Vec<Vec<u8>> = Vec::new();
    let mut i: usize = 0;
    while i < cmds.len()
        invariant
            i <= cmds@.len(),
            byte_views(r@) == wire_commands(string_views(cmds@.take(i as int))),
        decreases cmds@.len() - i,
    {
        let bytes = cmds[i].as_str().as_bytes_vec();
        assert(byte_views(r@.push(bytes)) =~= byte_views(r@).push(bytes@));
        r.push(bytes);
        i = i + 1;
        assert(wire_commands(string_views(cmds@.take(i as int))) =~= wire_commands(
            string_views(cmds@.take(i - 1)),
        ).push(encode_utf8(cmds@[i - 1]@)));
    }
    assert(cmds@.take(i as int) =~= cmds@);
    r
}

/// Decoding encoded levels gives them back.
pub proof fn lemma_levels_round_trip(levels: Seq<bool>)
    ensures
        levels_of(wire_levels(levels)) == levels,
{
    assert(levels_of(wire_levels(levels)) =~= levels);
}

/// Encoding decoded wire levels gives the wire back, when every level on it
/// is 0 or 1.
pub proof fn lemma_wire_levels_round_trip(wire: Seq<u8>)
    requires
        is_binary(wire),
    ensures
        wire_levels(levels_of(wire)) == wire,
{
    assert(wire_levels(levels_of(wire)) =~= wire);
}

/// Decoding encoded commands gives them back, and never fails.
pub proof fn lemma_commands_round_trip(cmds: Seq<Seq<char>>)
    ensures
        commands_of(wire_commands(cmds)) == Ok::<_, ParseError>(cmds),
    decreases cmds.len(),
{
    if cmds.len() > 0 {
        let front = cmds.drop_last();
        lemma_commands_round_trip(front);
        assert(wire_commands(cmds).drop_last() =~= wire_commands(front));
        encode_utf8_valid_utf8(cmds.last());
        encode_utf8_decode_utf8(cmds.last());
        assert(front.push(cmds.last()) =~= cmds);
    } else {
        assert(wire_commands(cmds) =~= Seq::<Seq<u8>>::empty());
        assert(cmds =~= Seq::<Seq<char>>::empty());
    }
}

/// Encoding decoded commands gives the wire back, whenever decoding succeeds.
pub proof fn lemma_wire_commands_round_trip(wire: Seq<Seq<u8>>)
    requires
        commands_of(wire) is Ok,
    ensures
        wire_commands(commands_of(wire)->Ok_0) == wire,
    decreases wire.len(),
{
    if wire.len() > 0 {
        let front = wire.drop_last();
        lemma_wire_commands_round_trip(front);
        decode_utf8_encode_utf8(wire.last());
        let p = commands_of(front)->Ok_0;
        assert(wire_commands(p.push(decode_utf8(wire.last()))) =~= wire_commands(p).push(
            encode_utf8(decode_utf8(wire.last())),
        ));
        assert(front.push(wire.last()) =~= wire);
    } else {
        assert(wire_commands(commands_of(wire)->Ok_0) =~= wire);
    }
}

/// A digital line as it travels: levels as integers.
#[derive(Clone, Debug)]
pub struct DigitalWire {
    pub value: Vec<u8>,
    pub times: Vec<u64>,
}

/// An RS-485 line as it travels: commands as byte strings.
#[derive(Clone, Debug)]
pub struct RS485Wire {
    pub command: Vec<Vec<u8>>,
    pub times: Vec<u64>,
}

/// A DDS synthesizer as it travels: feature switches as integers.
#[derive(Clone, Debug)]
pub struct DDSWire {
    pub amplitude: Vec<u64>,
    pub frequency: Vec<u64>,
    pub feature_enable: Vec<u8>,
    pub feature_value: Vec<u64>,
    pub times: Vec<u64>,
}

/// A channel payload as it travels.
#[derive(Clone, Debug)]
pub enum DataWire {
    Analog(AnalogSeq),
    Digital(DigitalWire),
    RS485(RS485Wire),
    PLLVCO(VCOSeq),
    DDSRF(DDSWire),
    PulseGen(PulseGenSeq),
    FreqFB(FreqFBSeq),
}

/// A channel as it travels.
#[derive(Clone, Debug)]
pub struct ChannelWire {
    pub data: DataWire,
    pub name: String,
    pub sigchan: u8,
    pub address: u8,
}

/// The wire channel can be decoded: its commands, if any, are valid UTF-8.
pub open spec fn wire_ok(w: ChannelWire) -> bool {
    match w.data {
        DataWire::RS485(r) => commands_of(byte_views(r.command@)) is Ok,
        _ => true,
    }
}

/// Every level on the wire channel is 0 or 1.
pub open spec fn wire_binary(w: ChannelWire) -> bool {
    match w.data {
        DataWire::Digital(d) => is_binary(d.value@),
        DataWire::DDSRF(d) => is_binary(d.feature_enable@),
        _ => true,
    }
}

/// `c` is what the wire channel `w` decodes to.
pub open spec fn channel_decodes(w: ChannelWire, c: ChannelSequence) -> bool {
    &&& c.name@ == w.name@
    &&& c.index_sigchan == w.sigchan
    &&& c.address == w.address
    &&& match w.data {
        DataWire::Analog(a) => c.device_dependent matches DeviceDependentData::Analog(x)
            && x.amplitude@ == a.amplitude@ && x.times@ == a.times@,
        DataWire::Digital(d) => c.device_dependent matches DeviceDependentData::Digital(x)
            && x.value@ == levels_of(d.value@) && x.times@ == d.times@,
        DataWire::RS485(r) => c.device_dependent matches DeviceDependentData::RS485(x)
            && commands_of(byte_views(r.command@)) == Ok::<_, ParseError>(string_views(x.command@))
            && x.times@ == r.times@,
        DataWire::PLLVCO(v) => c.device_dependent matches DeviceDependentData::PLLVCO(x)
            && x.frequency@ == v.frequency@ && x.times@ == v.times@,
        DataWire::DDSRF(d) => c.device_dependent matches DeviceDependentData::DDSRF(x)
            && x.amplitude@ == d.amplitude@ && x.frequency@ == d.frequency@
            && x.feature_enable@ == levels_of(d.feature_enable@)
            && x.feature_value@ == d.feature_value@ && x.times@ == d.times@,
        DataWire::PulseGen(p) => c.device_dependent == DeviceDependentData::PulseGen(p),
        DataWire::FreqFB(f) => c.device_dependent == DeviceDependentData::FreqFB(f),
    }
}

/// `w` is the wire form of the channel `c`.
pub open spec fn channel_encodes(c: ChannelSequence, w: ChannelWire) -> bool {
    &&& w.name@ == c.name@
    &&& w.sigchan == c.index_sigchan
    &&& w.address == c.address
    &&& match c.device_dependent {
        DeviceDependentData::Analog(a) => w.data matches DataWire::Analog(x)
            && x.amplitude@ == a.amplitude@ && x.times@ == a.times@,
        DeviceDependentData::Digital(d) => w.data matches DataWire::Digital(x)
            && x.value@ == wire_levels(d.value@) && x.times@ == d.times@,
        DeviceDependentData::RS485(r) => w.data matches DataWire::RS485(x)
            && byte_views(x.command@) == wire_commands(string_views(r.command@))
            && x.times@ == r.times@,
        DeviceDependentData::PLLVCO(v) => w.data matches DataWire::PLLVCO(x)
            && x.frequency@ == v.frequency@ && x.times@ == v.times@,
        DeviceDependentData::DDSRF(d) => w.data matches DataWire::DDSRF(x)
            && x.amplitude@ == d.amplitude@ && x.frequency@ == d.frequency@
            && x.feature_enable@ == wire_levels(d.feature_enable@)
            && x.feature_value@ == d.feature_value@ && x.times@ == d.times@,
        DeviceDependentData::PulseGen(p) => w.data == DataWire::PulseGen(p),
        DeviceDependentData::FreqFB(f) => w.data == DataWire::FreqFB(f),
    }
}

/// The two wire channels carry the same values.
pub open spec fn same_wire(a: ChannelWire, b: ChannelWire) -> bool {
    &&& a.name@ == b.name@
    &&& a.sigchan == b.sigchan
    &&& a.address == b.address
    &&& match a.data {
        DataWire::Analog(x) => b.data matches DataWire::Analog(y) && x.amplitude@ == y.amplitude@
            && x.times@ == y.times@,
        DataWire::Digital(x) => b.data matches DataWire::Digital(y) && x.value@ == y.value@
            && x.times@ == y.times@,
        DataWire::RS485(x) => b.data matches DataWire::RS485(y) && byte_views(x.command@)
            == byte_views(y.command@) && x.times@ == y.times@,
        DataWire::PLLVCO(x) => b.data matches DataWire::PLLVCO(y) && x.frequency@ == y.frequency@
            && x.times@ == y.times@,
        DataWire::DDSRF(x) => b.data matches DataWire::DDSRF(y) && x.amplitude@ == y.amplitude@
            && x.frequency@ == y.frequency@ && x.feature_enable@ == y.feature_enable@
            && x.feature_value@ == y.feature_value@ && x.times@ == y.times@,
        DataWire::PulseGen(p) => b.data == DataWire::PulseGen(p),
        DataWire::FreqFB(f) => b.data == DataWire::FreqFB(f),
    }
}

fn copy_commands(v: &Vec<String>) -> (r: Vec<String>)
    ensures
        string_views(r@) == string_views(v@),
{
    let mut r: Vec<String> = Vec::new();
    let mut i: usize = 0;
    while i < v.len()
        invariant
            i <= v@.len(),
            string_views(r@) == string_views(v@.take(i as int)),
        decreases v@.len() - i,
    {
        let c = v[i].clone();
        assert(string_views(r@.push(c)) =~= string_views(r@).push(c@));
        assert(string_views(v@.take(i + 1)) =~= string_views(v@.take(i as int)).push(v@[i as int]@));
        r.push(c);
        i = i + 1;
    }
    assert(v@.take(i as int) =~= v@);
    r
}

impl ChannelSequence {
    /// Decodes a wire channel; fails only on a command that is not valid
    /// UTF-8, with that command's error.
    pub fn from_wire(w: &ChannelWire) -> (r: Result<ChannelSequence, ParseError>)
        ensures
            r is Ok <==> wire_ok(*w),
            r matches Ok(c) ==> channel_decodes(*w, c),
            r matches Err(e) ==> w.data matches DataWire::RS485(x) && commands_of(
                byte_views(x.command@),
            ) == Err::<Seq<Seq<char>>, _>(e),
    {
        let device_dependent = match &w.data {
            DataWire::Analog(a) => DeviceDependentData::Analog(
                AnalogSeq { amplitude: copy_samples(&a.amplitude), times: copy_samples(&a.times) },
            ),
            DataWire::Digital(d) => DeviceDependentData::Digital(
                DigitalSeq { value: deserialize_bool(&d.value), times: copy_samples(&d.times) },
            ),
            DataWire::RS485(x) => match deserialize_str(&x.command) {
                Ok(command) => DeviceDependentData::RS485(
                    RS485Seq { command, times: copy_samples(&x.times) },
                ),
                Err(e) => return Err(e),
            },
            DataWire::PLLVCO(v) => DeviceDependentData::PLLVCO(
                VCOSeq { frequency: copy_samples(&v.frequency), times: copy_samples(&v.times) },
            ),
            DataWire::DDSRF(d) => DeviceDependentData::DDSRF(
                DDSSeq {
                    amplitude: copy_samples(&d.amplitude),
                    frequency: copy_samples(&d.frequency),
                    feature_enable: deserialize_bool(&d.feature_enable),
                    feature_value: copy_samples(&d.feature_value),
                    times: copy_samples(&d.times),
                },
            ),
            DataWire::PulseGen(p) => DeviceDependentData::PulseGen(*p),
            DataWire::FreqFB(f) => DeviceDependentData::FreqFB(*f),
        };
        Ok(
            ChannelSequence {
                device_dependent,
                name: w.name.clone(),
                index_sigchan: w.sigchan,
                address: w.address,
            },
        )
    }

    /// The wire form of this channel.
    pub fn to_wire(&self) -> (r: ChannelWire)
        ensures
            channel_encodes(*self, r),
    {
        let data = match &self.device_dependent {
            DeviceDependentData::Analog(a) => DataWire::Analog(
                AnalogSeq { amplitude: copy_samples(&a.amplitude), times: copy_samples(&a.times) },
            ),
            DeviceDependentData::Digital(d) => DataWire::Digital(
                DigitalWire { value: serialize_bool(&d.value), times: copy_samples(&d.times) },
            ),
            DeviceDependentData::RS485(x) => DataWire::RS485(
                RS485Wire { command: serialize_str(&x.command), times: copy_samples(&x.times) },
            ),
            DeviceDependentData::PLLVCO(v) => DataWire::PLLVCO(
                VCOSeq { frequency: copy_samples(&v.frequency), times: copy_samples(&v.times) },
            ),
            DeviceDependentData::DDSRF(d) => DataWire::DDSRF(
                DDSWire {
                    amplitude: copy_samples(&d.amplitude),
                    frequency: copy_samples(&d.frequency),
                    feature_enable: serialize_bool(&d.feature_enable),
                    feature_value: copy_samples(&d.feature_value),
                    times: copy_samples(&d.times),
                },
            ),
            DeviceDependentData::PulseGen(p) => DataWire::PulseGen(*p),
            DeviceDependentData::FreqFB(f) => DataWire::FreqFB(*f),
        };
        ChannelWire { data, name: self.name.clone(), sigchan: self.index_sigchan, address: self.address }
    }
}

impl Sequence {
    /// Decodes the channels of a wire document, in order; on failure, the
    /// position of the first channel that cannot be decoded and its error.
    pub fn from_wire(ws: &Vec<ChannelWire>) -> (r: Result<Sequence, (usize, ParseError)>)
        ensures
            r is Ok <==> forall|i: int| 0 <= i < ws@.len() ==> wire_ok(#[trigger] ws@[i]),
            r matches Ok(s) ==> s.seq_channel@.len() == ws@.len() && forall|i: int|
                0 <= i < ws@.len() ==> channel_decodes(#[trigger] ws@[i], s.seq_channel@[i]),
            r matches Err((k, e)) ==> {
                &&& k < ws@.len()
                &&& forall|j: int| 0 <= j < k ==> wire_ok(#[trigger] ws@[j])
                &&& ws@[k as int].data matches DataWire::RS485(x) && commands_of(
                    byte_views(x.command@),
                ) == Err::<Seq<Seq<char>>, _>(e)
            },
    {
        let mut chans: Vec<ChannelSequence> = Vec::new();
        let mut i: usize = 0;
        while i < ws.len()
            invariant
                i <= ws@.len(),
                chans@.len() == i,
                forall|j: int| 0 <= j < i ==> wire_ok(#[trigger] ws@[j]),
                forall|j: int| 0 <= j < i ==> channel_decodes(#[trigger] ws@[j], chans@[j]),
            decreases ws@.len() - i,
        {
            match ChannelSequence::from_wire(&ws[i]) {
                Ok(c) => chans.push(c),
                Err(e) => return Err((i, e)),
            }
            i = i + 1;
        }
        Ok(Sequence { seq_channel: chans })
    }

    /// The wire form of every channel, in order.
    pub fn to_wire(&self) -> (r: Vec<ChannelWire>)
        ensures
            r@.len() == self.seq_channel@.len(),
            forall|i: int|
                0 <= i < r@.len() ==> channel_encodes(self.seq_channel@[i], #[trigger] r@[i]),
    {
        let mut r: Vec<ChannelWire> = Vec::new();
        let mut i: usize = 0;
        while i < self.seq_channel.len()
            invariant
                i <= self.seq_channel@.len(),
                r@.len() == i,
                forall|j: int|
                    0 <= j < i ==> channel_encodes(self.seq_channel@[j], #[trigger] r@[j]),
            decreases self.seq_channel@.len() - i,
        {
            r.push(self.seq_channel[i].to_wire());
            i = i + 1;
        }
        r
    }
}

/// Decoding a wire channel and encoding the channel obtained gives the same
/// wire channel back, provided every level on it is 0 or 1.
pub proof fn lemma_wire_round_trip(w: ChannelWire, c: ChannelSequence, back: ChannelWire)
    requires
        wire_binary(w),
        channel_decodes(w, c),
        channel_encodes(c, back),
    ensures
        same_wire(w, back),
{
    match w.data {
        DataWire::Digital(d) => {
            lemma_wire_levels_round_trip(d.value@);
        },
        DataWire::DDSRF(d) => {
            lemma_wire_levels_round_trip(d.feature_enable@);
        },
        DataWire::RS485(x) => {
            lemma_wire_commands_round_trip(byte_views(x.command@));
        },
        _ => {},
    }
}

/// Round trip of a whole document: decoding its channels and encoding the
/// sequence obtained gives back the same channels in the same order,
/// provided every level on them is 0 or 1.
pub proof fn lemma_sequence_round_trip(
    ws: Seq<ChannelWire>,
    chans: Seq<ChannelSequence>,
    back: Seq<ChannelWire>,
)
    requires
        chans.len() == ws.len(),
        back.len() == chans.len(),
        forall|i: int| 0 <= i < ws.len() ==> wire_binary(#[trigger] ws[i]),
        forall|i: int| 0 <= i < ws.len() ==> channel_decodes(#[trigger] ws[i], chans[i]),
        forall|i: int| 0 <= i < ws.len() ==> channel_encodes(chans[i], #[trigger] back[i]),
    ensures
        forall|i: int| 0 <= i < ws.len() ==> same_wire(#[trigger] ws[i], back[i]),
{
    assert forall|i: int| 0 <= i < ws.len() implies same_wire(#[trigger] ws[i], back[i]) by {
        lemma_wire_round_trip(ws[i], chans[i], back[i]);
    }
}

} // verus!
