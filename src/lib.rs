//! Sequence-to-chart engine: turns a mixed-device instrument sequence into a
//! stacked, time-aligned chart description.
//!
//! Time and amplitude samples are carried as IEEE-754 binary64 bit patterns
//! (`u64`); the engine moves them around but never does arithmetic on them.
//! Vertical domains are exact fractions `lower / total` and `upper / total`.

pub mod chart;
pub mod layout;
pub mod sequence;
pub mod traces;
pub mod wire;

pub use chart::{Background, Chart};
pub use layout::{
    adjust_y_height, axis_for, default_panels, layout_fits, AxisDef, Domain, Panel, SubplotType,
    SUBPLOT_GAP,
};
pub use sequence::{
    AnalogSeq, ChannelSequence, DDSSeq, DeviceDependentData, DeviceKind, DigitalSeq, FreqFBSeq,
    PulseGenSeq, RS485Seq, Sequence, VCOSeq,
};
pub use traces::{add_axis, digital_line_levels, ChartError, LineStyle, Trace};
pub use wire::{
    deserialize_bool, deserialize_str, serialize_bool, serialize_str, ChannelWire, DDSWire, DataWire,
    DigitalWire, ParseError, RS485Wire,
};
