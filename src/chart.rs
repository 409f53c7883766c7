use vstd::prelude::*;
use vstd::string::StringExecFns;

use crate::layout::{
    adjust_y_height, default_panels, extent, layout, standard_panels, AxisDef, Panel, SubplotType,
};
use crate::sequence::{kind_of, ChannelSequence, DeviceKind, Sequence};
use crate::traces::{
    joined, lemma_views_add, result_view, traces_in, views, ChartError, ChartErrorView, Trace,
    TraceView,
};

verus! {

/// The chart's background colour.
#[derive(Clone, Copy, PartialEq, Eq, Structural, Debug)]
pub enum Background {
    AliceBlue,
}

/// A renderable chart: traces, vertical axes and global layout settings.
#[derive(Clone, Debug)]
pub struct Chart {
    pub traces: Vec<Trace>,
    pub axes: Vec<AxisDef>,
    pub title: String,
    pub background: Background,
    /// Whether a horizontal range slider spans the time axis.
    pub range_slider: bool,
    /// Set when no channel produced a trace: the chart is a placeholder.
    pub empty: bool,
}

pub struct ChartView {
    pub traces: Seq<TraceView>,
    pub axes: Seq<AxisDef>,
    pub title: Seq<char>,
    pub background: Background,
    pub range_slider: bool,
    pub empty: bool,
}

impl View for Chart {
    type V = ChartView;

    open spec fn view(&self) -> ChartView {
        ChartView {
            traces: views(self.traces@),
            axes: self.axes@,
            title: self.title@,
            background: self.background,
            range_slider: self.range_slider,
            empty: self.empty,
        }
    }
}

pub open spec fn chart_view(r: Result<Chart, ChartError>) -> Result<ChartView, ChartErrorView> {
    match r {
        Ok(c) => Ok(c@),
        Err(e) => Err(e@),
    }
}

/// The fixed chart title.
pub open spec fn chart_title() -> Seq<char> {
    seq!['I', 'n', 'n', 'o', 'c', 'e', 'n', 't', ' ', 'T', 'r', 'i', 'a', 'l']
}

fn title_text() -> (r: String)
    ensures
        r@ == chart_title(),
{
    let r = <String as StringExecFns>::from_str("Innocent Trial");
    proof {
        reveal_strlit("Innocent Trial");
    }
    assert(r@ =~= chart_title());
    r
}

/// The DDS traces: all amplitude traces, then all frequency traces.
pub open spec fn dds_traces(chans: Seq<ChannelSequence>, axes: Seq<AxisDef>) -> Result<
    Seq<TraceView>,
    ChartErrorView,
> {
    joined(
        traces_in(SubplotType::DDSRFAmpl, chans, axes),
        traces_in(SubplotType::DDSRFFreq, chans, axes),
    )
}

/// Every trace of a sequence: analog, then DDS, then digital lines, then
/// PLL/VCO; or the first error met in that order.
pub open spec fn all_traces(chans: Seq<ChannelSequence>, axes: Seq<AxisDef>) -> Result<
    Seq<TraceView>,
    ChartErrorView,
> {
    joined(
        joined(
            joined(traces_in(SubplotType::AnalogAmpl, chans, axes), dds_traces(chans, axes)),
            traces_in(SubplotType::DigitalLines, chans, axes),
        ),
        traces_in(SubplotType::PLLVCOFreq, chans, axes),
    )
}

/// The chart of a sequence under a declared panel order.
pub open spec fn composed(chans: Seq<ChannelSequence>, panels: Seq<Panel>) -> Result<
    ChartView,
    ChartErrorView,
> {
    let axes = layout(panels);
    match all_traces(chans, axes) {
        Err(e) => Err(e),
        Ok(ts) => Ok(
            ChartView {
                traces: ts,
                axes,
                title: chart_title(),
                background: Background::AliceBlue,
                range_slider: true,
                empty: ts.len() == 0,
            },
        ),
    }
}

fn append_traces(a: &mut Vec<Trace>, b: Result<Vec<Trace>, ChartError>) -> (r: Result<(), ChartError>)
    ensures
        match r {
            Ok(_) => b is Ok && joined(Ok(views(old(a)@)), result_view(b)) == Ok::<
                _,
                ChartErrorView,
            >(views(final(a)@)),
            Err(e) => joined(Ok(views(old(a)@)), result_view(b)) == Err::<Seq<TraceView>, _>(
                e@,
            ),
        },
{
    match b {
        Ok(mut v) => {
            proof {
                lemma_views_add(a@, v@);
            }
            a.append(&mut v);
            Ok(())
        },
        Err(e) => Err(e),
    }
}

impl Sequence {
    /// The chart composer: lays out `panels`, builds every trace bound to the
    /// axis of its category, and assembles the chart; or reports the first
    /// shape mismatch.
    pub fn compose(&self, panels: &Vec<Panel>) -> (r: Result<Chart, ChartError>)
        requires
            extent(panels@) <= u64::MAX,
        ensures
            chart_view(r) == composed(self.seq_channel@, panels@),
    {
        let axes = adjust_y_height(panels);
        let mut traces = match self.traces_anlg(&axes) {
            Ok(v) => v,
            Err(e) => return Err(e),
        };
        match append_traces(&mut traces, self.traces_dds(&axes)) {
            Ok(_) => {},
            Err(e) => return Err(e),
        }
        match append_traces(&mut traces, self.traces_dig(&axes)) {
            Ok(_) => {},
            Err(e) => return Err(e),
        }
        match append_traces(&mut traces, self.traces_vco(&axes)) {
            Ok(_) => {},
            Err(e) => return Err(e),
        }
        let empty = traces.len() == 0;
        Ok(
            Chart {
                traces,
                axes,
                title: title_text(),
                background: Background::AliceBlue,
                range_slider: true,
                empty,
            },
        )
    }

    /// The chart under the standard panel order.
    pub fn to_chart(&self) -> (r: Result<Chart, ChartError>)
        ensures
            chart_view(r) == composed(self.seq_channel@, standard_panels()),
    {
        let panels = default_panels();
        self.compose(&panels)
    }
}

/// A single DDS channel yields exactly two traces, its amplitude trace and
/// then its frequency trace, both on the channel's sample times; it fails
/// exactly when one of the two series differs in length from the times.
pub proof fn lemma_dds_dual_trace(c: ChannelSequence, axes: Seq<AxisDef>)
    requires
        c.device_dependent is DDSRF,
    ensures
        ({
            let d = c.device_dependent->DDSRF_0;
            let r = dds_traces(seq![c], axes);
            &&& r is Ok <==> (d.amplitude@.len() == d.times@.len() && d.frequency@.len()
                == d.times@.len())
            &&& r is Ok ==> {
                let ts = r->Ok_0;
                &&& ts.len() == 2
                &&& ts[0].category == SubplotType::DDSRFAmpl
                &&& ts[1].category == SubplotType::DDSRFFreq
                &&& ts[0].name == c.name@ && ts[1].name == c.name@
                &&& ts[0].x == d.times@ && ts[1].x == d.times@
                &&& ts[0].y == d.amplitude@ && ts[1].y == d.frequency@
            }
        }),
{
    let s = seq![c];
    let none = Seq::<TraceView>::empty();
    assert(s.drop_last() =~= Seq::<ChannelSequence>::empty());
    assert(s.last() == c);
    assert(traces_in(SubplotType::DDSRFAmpl, s.drop_last(), axes) == Ok::<_, ChartErrorView>(none));
    assert(traces_in(SubplotType::DDSRFFreq, s.drop_last(), axes) == Ok::<_, ChartErrorView>(none));
    let ra = traces_in(SubplotType::DDSRFAmpl, s, axes);
    let rf = traces_in(SubplotType::DDSRFFreq, s, axes);
    if ra is Ok && rf is Ok {
        assert(ra->Ok_0 =~= none.push(ra->Ok_0[0]));
        assert(rf->Ok_0 =~= none.push(rf->Ok_0[0]));
    }
}

/// A channel that some category draws a trace for.
pub open spec fn chart_eligible(c: ChannelSequence) -> bool {
    let k = kind_of(c.device_dependent);
    k == DeviceKind::Analog || k == DeviceKind::Digital || k == DeviceKind::DDSRF || k
        == DeviceKind::PLLVCO
}

proof fn lemma_no_traces(category: SubplotType, chans: Seq<ChannelSequence>, axes: Seq<AxisDef>)
    requires
        forall|i: int| 0 <= i < chans.len() ==> !chart_eligible(#[trigger] chans[i]),
    ensures
        traces_in(category, chans, axes) == Ok::<_, ChartErrorView>(Seq::<TraceView>::empty()),
    decreases chans.len(),
{
    if chans.len() > 0 {
        let front = chans.drop_last();
        assert forall|i: int| 0 <= i < front.len() implies !chart_eligible(#[trigger] front[i]) by {
            assert(front[i] == chans[i]);
        }
        lemma_no_traces(category, front, axes);
        assert(!chart_eligible(chans[chans.len() - 1]));
    }
}

/// A sequence without chart-eligible channels (none at all, or only pulse
/// generators, frequency feedback and RS-485 lines) composes to an empty
/// chart: no traces, flagged as empty, and no error.
pub proof fn lemma_empty_chart(chans: Seq<ChannelSequence>, panels: Seq<Panel>)
    requires
        forall|i: int| 0 <= i < chans.len() ==> !chart_eligible(#[trigger] chans[i]),
    ensures
        composed(chans, panels) is Ok,
        composed(chans, panels)->Ok_0.empty,
        composed(chans, panels)->Ok_0.traces.len() == 0,
{
    let axes = layout(panels);
    lemma_no_traces(SubplotType::AnalogAmpl, chans, axes);
    lemma_no_traces(SubplotType::DDSRFAmpl, chans, axes);
    lemma_no_traces(SubplotType::DDSRFFreq, chans, axes);
    lemma_no_traces(SubplotType::DigitalLines, chans, axes);
    lemma_no_traces(SubplotType::PLLVCOFreq, chans, axes);
    let e = Seq::<TraceView>::empty();
    assert(e + e =~= e);
}

/// Composition is deterministic: charts composed from the same channels
/// under the same panel order are identical, trace for trace and axis for
/// axis.
pub proof fn lemma_compose_deterministic(
    a: Sequence,
    b: Sequence,
    panels: Seq<Panel>,
    ra: Result<Chart, ChartError>,
    rb: Result<Chart, ChartError>,
)
    requires
        a.seq_channel@ == b.seq_channel@,
        chart_view(ra) == composed(a.seq_channel@, panels),
        chart_view(rb) == composed(b.seq_channel@, panels),
    ensures
        chart_view(ra) == chart_view(rb),
{
}

} // verus!
