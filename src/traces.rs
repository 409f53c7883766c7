use vstd::prelude::*;

use crate::layout::{axis_for, axis_of, AxisDef, SubplotType};
use crate::sequence::{
    copy_samples, lemma_positions_valid, positions_of, AnalogSeq, ChannelSequence, DDSSeq,
    DeviceDependentData, DeviceKind, DigitalSeq, Sequence, VCOSeq,
};

verus! {

/// How a trace's y values are read and drawn.
#[derive(Clone, Copy, PartialEq, Eq, Structural, Debug)]
pub enum LineStyle {
    /// y values are IEEE-754 bit patterns, joined by straight lines.
    Sampled,
    /// y values are integer levels, each held until the next sample.
    Stepped,
}

/// One plottable time series.
#[derive(Clone, Debug)]
pub struct Trace {
    pub category: SubplotType,
    pub name: String,
    pub x: Vec<u64>,
    pub y: Vec<u64>,
    pub style: LineStyle,
    /// The vertical axis the trace is bound to; `None` is the default axis.
    pub axis: Option<usize>,
}

pub struct TraceView {
    pub category: SubplotType,
    pub name: Seq<char>,
    pub x: Seq<u64>,
    pub y: Seq<u64>,
    pub style: LineStyle,
    pub axis: Option<usize>,
}

impl View for Trace {
    type V = TraceView;

    open spec fn view(&self) -> TraceView {
        TraceView {
            category: self.category,
            name: self.name@,
            x: self.x@,
            y: self.y@,
            style: self.style,
            axis: self.axis,
        }
    }
}

/// Why a chart could not be built.
#[derive(Clone, Debug)]
pub enum ChartError {
    /// A channel's sample times and its data differ in length.
    ShapeMismatch { channel: String, times_len: usize, data_len: usize },
}

pub enum ChartErrorView {
    ShapeMismatch { channel: Seq<char>, times_len: nat, data_len: nat },
}

impl View for ChartError {
    type V = ChartErrorView;

    open spec fn view(&self) -> ChartErrorView {
        match self {
            ChartError::ShapeMismatch { channel, times_len, data_len } => {
                ChartErrorView::ShapeMismatch {
                    channel: channel@,
                    times_len: *times_len as nat,
                    data_len: *data_len as nat,
                }
            },
        }
    }
}

/// The view of each trace of a list.
pub open spec fn views(ts: Seq<Trace>) -> Seq<TraceView> {
    ts.map_values(|t: Trace| t@)
}

/// The view of a list of traces or of its error.
pub open spec fn result_view(r: Result<Vec<Trace>, ChartError>) -> Result<
    Seq<TraceView>,
    ChartErrorView,
> {
    match r {
        Ok(v) => Ok(views(v@)),
        Err(e) => Err(e@),
    }
}

/// The trace of `ys` against `times`, on the default axis, or the mismatch
/// when their lengths differ.
pub open spec fn built(
    category: SubplotType,
    name: Seq<char>,
    times: Seq<u64>,
    ys: Seq<u64>,
    style: LineStyle,
) -> Result<TraceView, ChartErrorView> {
    if times.len() == ys.len() {
        Ok(TraceView { category, name, x: times, y: ys, style, axis: None })
    } else {
        Err(ChartErrorView::ShapeMismatch { channel: name, times_len: times.len(), data_len: ys.len() })
    }
}

/// The stepped levels of a digital line: the signal index when low, one more
/// when high.
pub open spec fn digital_levels(value: Seq<bool>, sigchan: u8) -> Seq<u64> {
    value.map_values(|b: bool| if b { (sigchan + 1) as u64 } else { sigchan as u64 })
}

/// A trace moved onto the axis of its category.
pub open spec fn placed(t: TraceView, axes: Seq<AxisDef>) -> TraceView {
    TraceView { axis: axis_of(axes, t.category), ..t }
}

/// What one channel contributes to `category`: nothing, a trace, or an error.
pub open spec fn channel_trace(
    category: SubplotType,
    c: ChannelSequence,
    axes: Seq<AxisDef>,
) -> Option<Result<TraceView, ChartErrorView>> {
    let r = match category {
        SubplotType::AnalogAmpl => match c.device_dependent {
            DeviceDependentData::Analog(a) => Some(
                built(category, c.name@, a.times@, a.amplitude@, LineStyle::Sampled),
            ),
            _ => None,
        },
        SubplotType::DDSRFAmpl => match c.device_dependent {
            DeviceDependentData::DDSRF(d) => Some(
                built(category, c.name@, d.times@, d.amplitude@, LineStyle::Sampled),
            ),
            _ => None,
        },
        SubplotType::DDSRFFreq => match c.device_dependent {
            DeviceDependentData::DDSRF(d) => Some(
                built(category, c.name@, d.times@, d.frequency@, LineStyle::Sampled),
            ),
            _ => None,
        },
        SubplotType::PLLVCOFreq => match c.device_dependent {
            DeviceDependentData::PLLVCO(v) => Some(
                built(category, c.name@, v.times@, v.frequency@, LineStyle::Sampled),
            ),
            _ => None,
        },
        SubplotType::DigitalLines => match c.device_dependent {
            DeviceDependentData::Digital(d) => Some(
                built(
                    category,
                    c.name@,
                    d.times@,
                    digital_levels(d.value@, c.index_sigchan),
                    LineStyle::Stepped,
                ),
            ),
            _ => None,
        },
        _ => None,
    };
    match r {
        Some(Ok(t)) => Some(Ok(placed(t, axes))),
        _ => r,
    }
}

/// The traces of one category, in channel order, or the error of the first
/// channel that fails.
pub open spec fn traces_in(
    category: SubplotType,
    chans: Seq<ChannelSequence>,
    axes: Seq<AxisDef>,
) -> Result<Seq<TraceView>, ChartErrorView>
    decreases chans.len(),
{
    if chans.len() == 0 {
        Ok(seq![])
    } else {
        match traces_in(category, chans.drop_last(), axes) {
            Err(e) => Err(e),
            Ok(p) => match channel_trace(category, chans.last(), axes) {
                None => Ok(p),
                Some(Err(e)) => Err(e),
                Some(Ok(t)) => Ok(p.push(t)),
            },
        }
    }
}

/// The first of two results that fails, or both lists joined.
pub open spec fn joined(
    a: Result<Seq<TraceView>, ChartErrorView>,
    b: Result<Seq<TraceView>, ChartErrorView>,
) -> Result<Seq<TraceView>, ChartErrorView> {
    match a {
        Err(e) => Err(e),
        Ok(x) => match b {
            Err(e) => Err(e),
            Ok(y) => Ok(x + y),
        },
    }
}

proof fn lemma_error_persists(
    category: SubplotType,
    chans: Seq<ChannelSequence>,
    axes: Seq<AxisDef>,
    i: int,
)
    requires
        0 <= i <= chans.len(),
        traces_in(category, chans.take(i), axes) is Err,
    ensures
        traces_in(category, chans, axes) == traces_in(category, chans.take(i), axes),
    decreases chans.len(),
{
    if i == chans.len() {
        assert(chans.take(i) =~= chans);
    } else {
        assert(chans.drop_last().take(i) =~= chans.take(i));
        lemma_error_persists(category, chans.drop_last(), axes, i);
    }
}

proof fn lemma_views_push(ts: Seq<Trace>, t: Trace)
    ensures
        views(ts.push(t)) == views(ts).push(t@),
{
    assert(views(ts.push(t)) =~= views(ts).push(t@));
}

/// The views of two joined trace lists are their views, joined.
pub proof fn lemma_views_add(a: Seq<Trace>, b: Seq<Trace>)
    ensures
        views(a + b) == views(a) + views(b),
{
    assert(views(a + b) =~= views(a) + views(b));
}

/// Builds the trace of `ys` against `times`, or reports the mismatch.
fn sampled_trace(
    category: SubplotType,
    name: &String,
    times: &Vec<u64>,
    ys: &Vec<u64>,
    style: LineStyle,
) -> (r: Result<Trace, ChartError>)
    ensures
        match r {
            Ok(t) => built(category, name@, times@, ys@, style) == Ok::<_, ChartErrorView>(t@),
            Err(e) => built(category, name@, times@, ys@, style) == Err::<TraceView, _>(e@),
        },
{
    if times.len() == ys.len() {
        Ok(
            Trace {
                category,
                name: name.clone(),
                x: copy_samples(times),
                y: copy_samples(ys),
                style,
                axis: None,
            },
        )
    } else {
        Err(
            ChartError::ShapeMismatch {
                channel: name.clone(),
                times_len: times.len(),
                data_len: ys.len(),
            },
        )
    }
}

/// The amplitude trace of an analog channel.
fn trace_anlg(anlg: &AnalogSeq, name: &String) -> (r: Result<Trace, ChartError>)
    ensures
        match r {
            Ok(t) => built(SubplotType::AnalogAmpl, name@, anlg.times@, anlg.amplitude@, LineStyle::Sampled)
                == Ok::<_, ChartErrorView>(t@),
            Err(e) => built(SubplotType::AnalogAmpl, name@, anlg.times@, anlg.amplitude@, LineStyle::Sampled)
                == Err::<TraceView, _>(e@),
        },
{
    sampled_trace(SubplotType::AnalogAmpl, name, &anlg.times, &anlg.amplitude, LineStyle::Sampled)
}

/// The amplitude trace of a DDS channel.
fn trace_ddsrf_ampl(wave: &DDSSeq, name: &String) -> (r: Result<Trace, ChartError>)
    ensures
        match r {
            Ok(t) => built(SubplotType::DDSRFAmpl, name@, wave.times@, wave.amplitude@, LineStyle::Sampled)
                == Ok::<_, ChartErrorView>(t@),
            Err(e) => built(SubplotType::DDSRFAmpl, name@, wave.times@, wave.amplitude@, LineStyle::Sampled)
                == Err::<TraceView, _>(e@),
        },
{
    sampled_trace(SubplotType::DDSRFAmpl, name, &wave.times, &wave.amplitude, LineStyle::Sampled)
}

/// The frequency trace of a DDS channel.
fn trace_ddsrf_freq(wave: &DDSSeq, name: &String) -> (r: Result<Trace, ChartError>)
    ensures
        match r {
            Ok(t) => built(SubplotType::DDSRFFreq, name@, wave.times@, wave.frequency@, LineStyle::Sampled)
                == Ok::<_, ChartErrorView>(t@),
            Err(e) => built(SubplotType::DDSRFFreq, name@, wave.times@, wave.frequency@, LineStyle::Sampled)
                == Err::<TraceView, _>(e@),
        },
{
    sampled_trace(SubplotType::DDSRFFreq, name, &wave.times, &wave.frequency, LineStyle::Sampled)
}

/// The frequency trace of a PLL/VCO channel.
fn trace_vco_freq(wave: &VCOSeq, name: &String) -> (r: Result<Trace, ChartError>)
    ensures
        match r {
            Ok(t) => built(SubplotType::PLLVCOFreq, name@, wave.times@, wave.frequency@, LineStyle::Sampled)
                == Ok::<_, ChartErrorView>(t@),
            Err(e) => built(SubplotType::PLLVCOFreq, name@, wave.times@, wave.frequency@, LineStyle::Sampled)
                == Err::<TraceView, _>(e@),
        },
{
    sampled_trace(SubplotType::PLLVCOFreq, name, &wave.times, &wave.frequency, LineStyle::Sampled)
}

/// The level of a digital line at each sample: the signal index when low, one
/// more when high.
pub fn digital_line_levels(value: &Vec<bool>, sigchan: u8) -> (r: Vec<u64>)
    ensures
        r@ == digital_levels(value@, sigchan),
{
    let mut r: Vec<u64> = Vec::new();
    let mut i: usize = 0;
    while i < value.len()
        invariant
            i <= value@.len(),
            r@ == digital_levels(value@.take(i as int), sigchan),
        decreases value@.len() - i,
    {
        let level: u64 = if value[i] {
            sigchan as u64 + 1
        } else {
            sigchan as u64
        };
        r.push(level);
        i = i + 1;
        assert(digital_levels(value@.take(i as int), sigchan) =~= digital_levels(
            value@.take(i - 1),
            sigchan,
        ).push(level));
    }
    assert(value@.take(i as int) =~= value@);
    r
}

/// The stepped trace of a digital line, lifted by its signal index so that
/// several lines can share one axis.
fn trace_dig_lines(wave: &DigitalSeq, name: &String, sigchan: u8) -> (r: Result<Trace, ChartError>)
    ensures
        match r {
            Ok(t) => built(
                SubplotType::DigitalLines,
                name@,
                wave.times@,
                digital_levels(wave.value@, sigchan),
                LineStyle::Stepped,
            ) == Ok::<_, ChartErrorView>(t@),
            Err(e) => built(
                SubplotType::DigitalLines,
                name@,
                wave.times@,
                digital_levels(wave.value@, sigchan),
                LineStyle::Stepped,
            ) == Err::<TraceView, _>(e@),
        },
{
    let levels = digital_line_levels(&wave.value, sigchan);
    sampled_trace(SubplotType::DigitalLines, name, &wave.times, &levels, LineStyle::Stepped)
}

/// Binds a trace to the axis of its category.
pub fn add_axis(axes: &Vec<AxisDef>, trace: Trace) -> (r: Trace)
    ensures
        r@ == placed(trace@, axes@),
{
    let axis = axis_for(axes, trace.category);
    Trace { axis, ..trace }
}

fn place(axes: &Vec<AxisDef>, r: Result<Trace, ChartError>) -> (p: Option<Result<Trace, ChartError>>)
    ensures
        p matches Some(q) && match q {
            Ok(t) => r matches Ok(t0) && t@ == placed(t0@, axes@),
            Err(e) => r matches Err(e0) && e@ == e0@,
        },
{
    match r {
        Ok(t) => Some(Ok(add_axis(axes, t))),
        Err(e) => Some(Err(e)),
    }
}

/// What one channel contributes to `category`.
fn channel_trace_of(category: SubplotType, c: &ChannelSequence, axes: &Vec<AxisDef>) -> (r: Option<
    Result<Trace, ChartError>,
>)
    ensures
        match r {
            None => channel_trace(category, *c, axes@) is None,
            Some(Ok(t)) => channel_trace(category, *c, axes@) == Some(
                Ok::<_, ChartErrorView>(t@),
            ),
            Some(Err(e)) => channel_trace(category, *c, axes@) == Some(
                Err::<TraceView, _>(e@),
            ),
        },
{
    match category {
        SubplotType::AnalogAmpl => match &c.device_dependent {
            DeviceDependentData::Analog(a) => place(axes, trace_anlg(a, &c.name)),
            _ => None,
        },
        SubplotType::DDSRFAmpl => match &c.device_dependent {
            DeviceDependentData::DDSRF(d) => place(axes, trace_ddsrf_ampl(d, &c.name)),
            _ => None,
        },
        SubplotType::DDSRFFreq => match &c.device_dependent {
            DeviceDependentData::DDSRF(d) => place(axes, trace_ddsrf_freq(d, &c.name)),
            _ => None,
        },
        SubplotType::PLLVCOFreq => match &c.device_dependent {
            DeviceDependentData::PLLVCO(v) => place(axes, trace_vco_freq(v, &c.name)),
            _ => None,
        },
        SubplotType::DigitalLines => match &c.device_dependent {
            DeviceDependentData::Digital(d) => place(
                axes,
                trace_dig_lines(d, &c.name, c.index_sigchan),
            ),
            _ => None,
        },
        _ => None,
    }
}

impl Sequence {
    /// The traces of one category, in channel order, each bound to the axis
    /// of its category; or the first channel's shape mismatch.
    pub fn traces_of(&self, category: SubplotType, axes: &Vec<AxisDef>) -> (r: Result<
        Vec<Trace>,
        ChartError,
    >)
        ensures
            result_view(r) == traces_in(category, self.seq_channel@, axes@),
    {
        let chans = &self.seq_channel;
        let mut r: Vec<Trace> = Vec::new();
        let mut i: usize = 0;
        assert(chans@.take(0) =~= Seq::<ChannelSequence>::empty());
        assert(views(r@) =~= Seq::<TraceView>::empty());
        while i < chans.len()
            invariant
                chans == &self.seq_channel,
                i <= chans@.len(),
                traces_in(category, chans@.take(i as int), axes@) == Ok::<_, ChartErrorView>(
                    views(r@),
                ),
            decreases chans@.len() - i,
        {
            assert(chans@.take(i + 1).drop_last() =~= chans@.take(i as int));
            assert(chans@.take(i + 1).last() == chans@[i as int]);
            match channel_trace_of(category, &chans[i], axes) {
                None => {},
                Some(Ok(t)) => {
                    proof {
                        lemma_views_push(r@, t);
                    }
                    r.push(t);
                },
                Some(Err(e)) => {
                    proof {
                        assert(traces_in(category, chans@.take(i + 1), axes@) == Err::<
                            Seq<TraceView>,
                            _,
                        >(e@));
                        lemma_error_persists(category, chans@, axes@, i + 1);
                    }
                    return Err(e);
                },
            }
            i = i + 1;
        }
        assert(chans@.take(i as int) =~= chans@);
        Ok(r)
    }

    /// The analog amplitude traces.
    pub fn traces_anlg(&self, axes: &Vec<AxisDef>) -> (r: Result<Vec<Trace>, ChartError>)
        ensures
            result_view(r) == traces_in(SubplotType::AnalogAmpl, self.seq_channel@, axes@),
    {
        self.traces_of(SubplotType::AnalogAmpl, axes)
    }

    /// The PLL/VCO frequency traces.
    pub fn traces_vco(&self, axes: &Vec<AxisDef>) -> (r: Result<Vec<Trace>, ChartError>)
        ensures
            result_view(r) == traces_in(SubplotType::PLLVCOFreq, self.seq_channel@, axes@),
    {
        self.traces_of(SubplotType::PLLVCOFreq, axes)
    }

    /// The stepped digital-line traces.
    pub fn traces_dig(&self, axes: &Vec<AxisDef>) -> (r: Result<Vec<Trace>, ChartError>)
        ensures
            result_view(r) == traces_in(SubplotType::DigitalLines, self.seq_channel@, axes@),
    {
        self.traces_of(SubplotType::DigitalLines, axes)
    }

    /// The DDS traces: every channel's amplitude trace, then every channel's
    /// frequency trace.
    pub fn traces_dds(&self, axes: &Vec<AxisDef>) -> (r: Result<Vec<Trace>, ChartError>)
        ensures
            result_view(r) == joined(
                traces_in(SubplotType::DDSRFAmpl, self.seq_channel@, axes@),
                traces_in(SubplotType::DDSRFFreq, self.seq_channel@, axes@),
            ),
    {
        let mut ampl = match self.traces_of(SubplotType::DDSRFAmpl, axes) {
            Ok(v) => v,
            Err(e) => return Err(e),
        };
        let mut freq = match self.traces_of(SubplotType::DDSRFFreq, axes) {
            Ok(v) => v,
            Err(e) => return Err(e),
        };
        proof {
            lemma_views_add(ampl@, freq@);
        }
        ampl.append(&mut freq);
        Ok(ampl)
    }
}

/// The payload variant whose channels feed `category`, if any does.
pub open spec fn kind_for(category: SubplotType) -> Option<DeviceKind> {
    match category {
        SubplotType::AnalogAmpl => Some(DeviceKind::Analog),
        SubplotType::DDSRFAmpl => Some(DeviceKind::DDSRF),
        SubplotType::DDSRFFreq => Some(DeviceKind::DDSRF),
        SubplotType::PLLVCOFreq => Some(DeviceKind::PLLVCO),
        SubplotType::DigitalLines => Some(DeviceKind::Digital),
        _ => None,
    }
}

/// The sample times of a payload (empty for those without a time series).
pub open spec fn times_of(d: DeviceDependentData) -> Seq<u64> {
    match d {
        DeviceDependentData::Analog(a) => a.times@,
        DeviceDependentData::Digital(v) => v.times@,
        DeviceDependentData::RS485(c) => c.times@,
        DeviceDependentData::PLLVCO(v) => v.times@,
        DeviceDependentData::DDSRF(v) => v.times@,
        _ => seq![],
    }
}

/// Classifier stability: the traces of a category come one per channel of
/// the variant that feeds it, in the order the classifier lists those
/// channels, each carrying that channel's name and sample times.
pub proof fn lemma_traces_follow_channels(
    category: SubplotType,
    chans: Seq<ChannelSequence>,
    axes: Seq<AxisDef>,
)
    requires
        chans.len() <= usize::MAX,
        kind_for(category) is Some,
        traces_in(category, chans, axes) is Ok,
    ensures
        ({
            let ts = traces_in(category, chans, axes)->Ok_0;
            let p = positions_of(chans, kind_for(category)->Some_0);
            &&& ts.len() == p.len()
            &&& forall|j: int|
                0 <= j < ts.len() ==> {
                    &&& (#[trigger] ts[j]).category == category
                    &&& ts[j].name == chans[p[j] as int].name@
                    &&& ts[j].x == times_of(chans[p[j] as int].device_dependent)
                }
        }),
    decreases chans.len(),
{
    if chans.len() > 0 {
        let front = chans.drop_last();
        let kind = kind_for(category)->Some_0;
        lemma_traces_follow_channels(category, front, axes);
        lemma_positions_valid(front, kind);
        let pf = positions_of(front, kind);
        assert forall|j: int| 0 <= j < pf.len() implies chans[#[trigger] pf[j] as int]
            == front[pf[j] as int] by {}
    }
}

} // verus!
