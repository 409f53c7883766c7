use vstd::prelude::*;

verus! {

/// The kinds of stacked subplots a chart can hold.
#[derive(Clone, Copy, PartialEq, Eq, Structural, Debug, Hash)]
pub enum SubplotType {
    AnalogAmpl,
    DDSRFAmpl,
    DDSRFFreq,
    PLLVCOFreq,
    DDSRFShade,
    DigitalBlocks,
    DigitalBars,
    DigitalLines,
}

/// One entry of the declared subplot order: a category and its relative
/// height weight (zero keeps the category's place but gives it no height).
#[derive(Clone, Copy, PartialEq, Eq, Structural, Debug)]
pub struct Panel {
    pub category: SubplotType,
    pub height: u64,
}

/// The vertical range `[lower / total, upper / total]` of the chart's height.
#[derive(Clone, Copy, PartialEq, Eq, Structural, Debug)]
pub struct Domain {
    pub lower: u64,
    pub upper: u64,
    pub total: u64,
}

/// A vertical axis: the category it serves, its identifier (1 for the primary
/// axis, 2 for the secondary, ...) and its domain.
#[derive(Clone, Copy, PartialEq, Eq, Structural, Debug)]
pub struct AxisDef {
    pub category: SubplotType,
    pub id: usize,
    pub domain: Domain,
}

/// The fixed gap placed below every subplot, in height-weight units.
pub const SUBPLOT_GAP: u64 = 40;

/// Cumulative height below panel `i`: each earlier panel adds the gap and its
/// own weight.
pub open spec fn offset(panels: Seq<Panel>, i: int) -> int
    decreases i,
{
    if i <= 0 {
        0
    } else {
        offset(panels, i - 1) + SUBPLOT_GAP + panels[i - 1].height
    }
}

/// The total extent that all domains are normalised by.
pub open spec fn extent(panels: Seq<Panel>) -> int {
    offset(panels, panels.len() as int)
}

/// The axis that the layout gives to panel `i`.
pub open spec fn axis_def(panels: Seq<Panel>, i: int) -> AxisDef {
    AxisDef {
        category: panels[i].category,
        id: (i + 1) as usize,
        domain: Domain {
            lower: (offset(panels, i) + SUBPLOT_GAP) as u64,
            upper: offset(panels, i + 1) as u64,
            total: extent(panels) as u64,
        },
    }
}

/// The whole layout: one axis per declared panel, in declaration order.
pub open spec fn layout(panels: Seq<Panel>) -> Seq<AxisDef> {
    Seq::new(panels.len(), |i: int| axis_def(panels, i))
}

proof fn lemma_offset_monotone(panels: Seq<Panel>, i: int, j: int)
    requires
        0 <= i <= j <= panels.len(),
    ensures
        0 <= offset(panels, i) <= offset(panels, j),
    decreases j,
{
    if i < j {
        lemma_offset_monotone(panels, i, j - 1);
    } else if j > 0 {
        lemma_offset_monotone(panels, i - 1, j - 1);
    }
}

/// Computes the vertical domain of each declared panel: a running offset
/// grows by the gap (lower bound) and then by the panel's weight (upper
/// bound); every bound is then read as a fraction of the final total.
pub fn adjust_y_height(panels: &Vec<Panel>) -> (r: Vec<AxisDef>)
    requires
        extent(panels@) <= u64::MAX,
    ensures
        r@ == layout(panels@),
{
    let n = panels.len();
    let mut total: u64 = 0;
    let mut k: usize = 0;
    while k < n
        invariant
            n == panels@.len(),
            k <= n,
            total == offset(panels@, k as int),
            extent(panels@) <= u64::MAX,
        decreases n - k,
    {
        proof {
            lemma_offset_monotone(panels@, k + 1, n as int);
        }
        total = total + SUBPLOT_GAP + panels[k].height;
        k = k + 1;
    }
    let mut r: Vec<AxisDef> = Vec::new();
    let mut cum: u64 = 0;
    let mut i: usize = 0;
    while i < n
        invariant
            n == panels@.len(),
            i <= n,
            cum == offset(panels@, i as int),
            total == extent(panels@),
            extent(panels@) <= u64::MAX,
            r@.len() == i,
            forall|j: int| 0 <= j < i ==> r@[j] == axis_def(panels@, j),
        decreases n - i,
    {
        proof {
            lemma_offset_monotone(panels@, i + 1, n as int);
        }
        let lower = cum + SUBPLOT_GAP;
        let upper = lower + panels[i].height;
        r.push(AxisDef {
            category: panels[i].category,
            id: i + 1,
            domain: Domain { lower, upper, total },
        });
        cum = upper;
        i = i + 1;
    }
    assert(r@ =~= layout(panels@));
    r
}

/// The laws of the layout: every domain lies inside `[0, 1]` and is as tall
/// as its panel's weight; the first starts one gap above the bottom, each next
/// one starts one gap above the previous one's top, and the last ends at the
/// top. So the domains rise with the declared order, never overlap, and leave
/// no space but the fixed gaps.
pub proof fn lemma_layout_tiles(panels: Seq<Panel>)
    requires
        extent(panels) <= u64::MAX,
    ensures
        forall|i: int|
            0 <= i < panels.len() ==> {
                let d = #[trigger] layout(panels)[i].domain;
                &&& d.total == extent(panels)
                &&& d.lower <= d.upper <= d.total
                &&& d.upper - d.lower == panels[i].height
            },
        panels.len() > 0 ==> layout(panels)[0].domain.lower == SUBPLOT_GAP,
        panels.len() > 0 ==> layout(panels)[panels.len() - 1].domain.upper == extent(panels),
        forall|i: int|
            0 <= i < panels.len() - 1 ==> #[trigger] layout(panels)[i + 1].domain.lower
                == layout(panels)[i].domain.upper + SUBPLOT_GAP,
{
    let n = panels.len() as int;
    assert forall|i: int| 0 <= i < n implies {
        let d = #[trigger] layout(panels)[i].domain;
        &&& d.total == extent(panels)
        &&& d.lower <= d.upper <= d.total
        &&& d.upper - d.lower == panels[i].height
    } by {
        lemma_offset_monotone(panels, i, i + 1);
        lemma_offset_monotone(panels, i + 1, n);
    }
    assert forall|i: int| 0 <= i < n - 1 implies #[trigger] layout(panels)[i + 1].domain.lower
        == layout(panels)[i].domain.upper + SUBPLOT_GAP by {
        lemma_offset_monotone(panels, i + 1, i + 2);
        lemma_offset_monotone(panels, i + 2, n);
    }
    if n > 0 {
        lemma_offset_monotone(panels, 0, n);
        lemma_offset_monotone(panels, n - 1, n);
    }
}

/// Whether the layout of `panels` can be computed: its extent fits in `u64`.
pub fn layout_fits(panels: &Vec<Panel>) -> (r: bool)
    ensures
        r == (extent(panels@) <= u64::MAX),
{
    let n = panels.len();
    let mut total: u64 = 0;
    let mut k: usize = 0;
    while k < n
        invariant
            n == panels@.len(),
            k <= n,
            total == offset(panels@, k as int),
        decreases n - k,
    {
        proof {
            lemma_offset_monotone(panels@, k + 1, n as int);
        }
        match total.checked_add(SUBPLOT_GAP) {
            None => return false,
            Some(t) => match t.checked_add(panels[k].height) {
                None => return false,
                Some(t2) => {
                    total = t2;
                },
            },
        }
        k = k + 1;
    }
    true
}

/// The identifier of the first axis that serves `category`, looking from
/// position `i` on; `None` when no axis does.
pub open spec fn axis_from(axes: Seq<AxisDef>, category: SubplotType, i: int) -> Option<usize>
    decreases axes.len() - i,
{
    if i < 0 || i >= axes.len() {
        None
    } else if axes[i].category == category {
        Some(axes[i].id)
    } else {
        axis_from(axes, category, i + 1)
    }
}

/// The axis a trace of `category` is bound to: that of the first axis serving
/// the category, or none (the default axis).
pub open spec fn axis_of(axes: Seq<AxisDef>, category: SubplotType) -> Option<usize> {
    axis_from(axes, category, 0)
}

/// Looks up the axis that traces of `category` are bound to.
pub fn axis_for(axes: &Vec<AxisDef>, category: SubplotType) -> (r: Option<usize>)
    ensures
        r == axis_of(axes@, category),
{
    let mut i: usize = 0;
    while i < axes.len()
        invariant
            i <= axes@.len(),
            axis_from(axes@, category, i as int) == axis_of(axes@, category),
        decreases axes@.len() - i,
    {
        if axes[i].category == category {
            return Some(axes[i].id);
        }
        i = i + 1;
    }
    None
}

/// The chart's standard stacking: every category in declaration order, with
/// the digital blocks present but given no height.
pub open spec fn standard_panels() -> Seq<Panel> {
    seq![
        Panel { category: SubplotType::AnalogAmpl, height: 300 },
        Panel { category: SubplotType::DDSRFAmpl, height: 400 },
        Panel { category: SubplotType::DDSRFFreq, height: 300 },
        Panel { category: SubplotType::PLLVCOFreq, height: 500 },
        Panel { category: SubplotType::DDSRFShade, height: 600 },
        Panel { category: SubplotType::DigitalBlocks, height: 0 },
        Panel { category: SubplotType::DigitalBars, height: 100 },
        Panel { category: SubplotType::DigitalLines, height: 1600 },
    ]
}

/// The standard stacking, whose layout always fits.
pub fn default_panels() -> (r: Vec<Panel>)
    ensures
        r@ == standard_panels(),
    extent(r@) <= u64::MAX,
{
    let r = vec![
        Panel { category: SubplotType::AnalogAmpl, height: 300 },
        Panel { category: SubplotType::DDSRFAmpl, height: 400 },
        Panel { category: SubplotType::DDSRFFreq, height: 300 },
        Panel { category: SubplotType::PLLVCOFreq, height: 500 },
        Panel { category: SubplotType::DDSRFShade, height: 600 },
        Panel { category: SubplotType::DigitalBlocks, height: 0 },
        Panel { category: SubplotType::DigitalBars, height: 100 },
        Panel { category: SubplotType::DigitalLines, height: 1600 },
    ];
    proof {
        reveal_with_fuel(offset, 9);
    }
    r
}

} // verus!
