use vstd::prelude::*;

verus! {

/// An analog output: amplitude samples against sample times.
#[derive(Clone, Debug)]
pub struct AnalogSeq {
    pub amplitude: Vec<u64>,
    pub times: Vec<u64>,
}

/// A digital logic line: levels against sample times.
#[derive(Clone, Debug)]
pub struct DigitalSeq {
    pub value: Vec<bool>,
    pub times: Vec<u64>,
}

/// An RS-485 line: text commands against send times.
#[derive(Clone, Debug)]
pub struct RS485Seq {
    pub command: Vec<String>,
    pub times: Vec<u64>,
}

/// A PLL/VCO synthesizer: frequency samples against sample times.
#[derive(Clone, Debug)]
pub struct VCOSeq {
    pub frequency: Vec<u64>,
    pub times: Vec<u64>,
}

/// A DDS RF synthesizer: amplitude, frequency and feature settings against
/// sample times.
#[derive(Clone, Debug)]
pub struct DDSSeq {
    pub amplitude: Vec<u64>,
    pub frequency: Vec<u64>,
    pub feature_enable: Vec<bool>,
    pub feature_value: Vec<u64>,
    pub times: Vec<u64>,
}

/// A pulse generator: one pulse, no time series.
#[derive(Clone, Copy, Debug)]
pub struct PulseGenSeq {
    pub time_delay: u64,
    pub time_width: u64,
    pub polarity: bool,
}

/// A frequency-feedback device: no payload.
#[derive(Clone, Copy, Debug)]
pub struct FreqFBSeq {}

/// The device-specific payload of one channel.
#[derive(Clone, Debug)]
pub enum DeviceDependentData {
    Analog(AnalogSeq),
    Digital(DigitalSeq),
    RS485(RS485Seq),
    PLLVCO(VCOSeq),
    DDSRF(DDSSeq),
    PulseGen(PulseGenSeq),
    FreqFB(FreqFBSeq),
}

/// The payload variants, without their data.
#[derive(Clone, Copy, PartialEq, Eq, Structural, Debug)]
pub enum DeviceKind {
    Analog,
    Digital,
    RS485,
    PLLVCO,
    DDSRF,
    PulseGen,
    FreqFB,
}

/// One channel of a sequence: its payload, display name, signal index (the
/// vertical offset of a digital line) and bus address.
#[derive(Clone, Debug)]
pub struct ChannelSequence {
    pub device_dependent: DeviceDependentData,
    pub name: String,
    pub index_sigchan: u8,
    pub address: u8,
}

/// An ordered collection of channels.
#[derive(Clone, Debug)]
pub struct Sequence {
    pub seq_channel: Vec<ChannelSequence>,
}

/// The variant of a payload.
pub open spec fn kind_of(d: DeviceDependentData) -> DeviceKind {
    match d {
        DeviceDependentData::Analog(_) => DeviceKind::Analog,
        DeviceDependentData::Digital(_) => DeviceKind::Digital,
        DeviceDependentData::RS485(_) => DeviceKind::RS485,
        DeviceDependentData::PLLVCO(_) => DeviceKind::PLLVCO,
        DeviceDependentData::DDSRF(_) => DeviceKind::DDSRF,
        DeviceDependentData::PulseGen(_) => DeviceKind::PulseGen,
        DeviceDependentData::FreqFB(_) => DeviceKind::FreqFB,
    }
}

impl DeviceDependentData {
    /// The variant of this payload.
    pub fn kind(&self) -> (r: DeviceKind)
        ensures
            r == kind_of(*self),
    {
        match self {
            DeviceDependentData::Analog(_) => DeviceKind::Analog,
            DeviceDependentData::Digital(_) => DeviceKind::Digital,
            DeviceDependentData::RS485(_) => DeviceKind::RS485,
            DeviceDependentData::PLLVCO(_) => DeviceKind::PLLVCO,
            DeviceDependentData::DDSRF(_) => DeviceKind::DDSRF,
            DeviceDependentData::PulseGen(_) => DeviceKind::PulseGen,
            DeviceDependentData::FreqFB(_) => DeviceKind::FreqFB,
        }
    }
}

/// The positions of the channels whose payload is of `kind`, in channel order.
pub open spec fn positions_of(chans: Seq<ChannelSequence>, kind: DeviceKind) -> Seq<usize>
    decreases chans.len(),
{
    if chans.len() == 0 {
        seq![]
    } else {
        let p = positions_of(chans.drop_last(), kind);
        if kind_of(chans.last().device_dependent) == kind {
            p.push((chans.len() - 1) as usize)
        } else {
            p
        }
    }
}

/// Every position that `positions_of` gives is a channel of that kind, and
/// they strictly increase.
pub proof fn lemma_positions_valid(chans: Seq<ChannelSequence>, kind: DeviceKind)
    requires
        chans.len() <= usize::MAX,
    ensures
        forall|j: int|
            0 <= j < positions_of(chans, kind).len() ==> {
                let p = #[trigger] positions_of(chans, kind)[j];
                &&& p < chans.len()
                &&& kind_of(chans[p as int].device_dependent) == kind
            },
        forall|j: int, k: int|
            0 <= j < k < positions_of(chans, kind).len() ==> positions_of(chans, kind)[j]
                < positions_of(chans, kind)[k],
    decreases chans.len(),
{
    if chans.len() > 0 {
        let front = chans.drop_last();
        lemma_positions_valid(front, kind);
        let p = positions_of(front, kind);
        assert forall|j: int| 0 <= j < p.len() implies #[trigger] p[j] < front.len()
            && chans[p[j] as int] == front[p[j] as int] by {}
    }
}

/// A copy of a sample series.
pub(crate) fn copy_samples(v: &Vec<u64>) -> (r: Vec<u64>)
    ensures
        r@ == v@,
{
    let mut r: Vec<u64> = Vec::new();
    let mut i: usize = 0;
    while i < v.len()
        invariant
            i <= v@.len(),
            r@ == v@.take(i as int),
        decreases v@.len() - i,
    {
        assert(v@.take(i + 1) =~= v@.take(i as int).push(v@[i as int]));
        r.push(v[i]);
        i = i + 1;
    }
    assert(v@.take(i as int) =~= v@);
    r
}

impl Sequence {
    /// A sequence with no channels.
    pub fn empty() -> (r: Self)
        ensures
            r.seq_channel@.len() == 0,
    {
        Sequence { seq_channel: Vec::new() }
    }

    /// Replaces the whole sequence.
    pub fn replace(&mut self, seq: Sequence)
        ensures
            *final(self) == seq,
    {
        *self = seq;
    }

    /// The channel classifier: positions of the channels of one payload
    /// variant, in channel order.
    pub fn channels_of(&self, kind: DeviceKind) -> (r: Vec<usize>)
        ensures
            r@ == positions_of(self.seq_channel@, kind),
    {
        let chans = &self.seq_channel;
        let mut r: Vec<usize> = Vec::new();
        let mut i: usize = 0;
        while i < chans.len()
            invariant
                chans == &self.seq_channel,
                i <= chans@.len(),
                r@ == positions_of(chans@.take(i as int), kind),
            decreases chans@.len() - i,
        {
            assert(chans@.take(i + 1).drop_last() =~= chans@.take(i as int));
            if chans[i].device_dependent.kind() == kind {
                r.push(i);
            }
            i = i + 1;
        }
        assert(chans@.take(i as int) =~= chans@);
        r
    }
}

} // verus!
