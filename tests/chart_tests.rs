use seqlines::{
    adjust_y_height, axis_for, default_panels, layout_fits, AnalogSeq, AxisDef, Background,
    ChannelSequence, ChartError, DDSSeq, DeviceDependentData, DeviceKind, DigitalSeq, Domain,
    FreqFBSeq, LineStyle, Panel, PulseGenSeq, RS485Seq, Sequence, SubplotType, VCOSeq,
    SUBPLOT_GAP,
};

fn bits(v: &[f64]) -> Vec<u64> {
    v.iter().map(|x| x.to_bits()).collect()
}

fn channel(name: &str, sigchan: u8, data: DeviceDependentData) -> ChannelSequence {
    ChannelSequence { device_dependent: data, name: name.to_string(), index_sigchan: sigchan, address: 0 }
}

fn analog(name: &str, amplitude: &[f64], times: &[f64]) -> ChannelSequence {
    channel(name, 0, DeviceDependentData::Analog(AnalogSeq { amplitude: bits(amplitude), times: bits(times) }))
}

fn digital(name: &str, sigchan: u8, value: &[bool], times: &[f64]) -> ChannelSequence {
    channel(name, sigchan, DeviceDependentData::Digital(DigitalSeq { value: value.to_vec(), times: bits(times) }))
}

fn dds(name: &str, amplitude: &[f64], frequency: &[f64], times: &[f64]) -> ChannelSequence {
    channel(
        name,
        0,
        DeviceDependentData::DDSRF(DDSSeq {
            amplitude: bits(amplitude),
            frequency: bits(frequency),
            feature_enable: vec![false; times.len()],
            feature_value: bits(&vec![0.0; times.len()]),
            times: bits(times),
        }),
    )
}

fn vco(name: &str, frequency: &[f64], times: &[f64]) -> ChannelSequence {
    channel(name, 0, DeviceDependentData::PLLVCO(VCOSeq { frequency: bits(frequency), times: bits(times) }))
}

fn pulse(name: &str) -> ChannelSequence {
    channel(name, 0, DeviceDependentData::PulseGen(PulseGenSeq { time_delay: 1.5f64.to_bits(), time_width: 2.0f64.to_bits(), polarity: true }))
}

fn feedback(name: &str) -> ChannelSequence {
    channel(name, 0, DeviceDependentData::FreqFB(FreqFBSeq {}))
}

fn seq(chans: Vec<ChannelSequence>) -> Sequence {
    Sequence { seq_channel: chans }
}

#[test]
fn digital_levels_step_by_signal_index() {
    let s = seq(vec![digital("d3", 3, &[false, true, false], &[0.0, 1.0, 2.0])]);
    let axes = adjust_y_height(&default_panels());
    let ts = s.traces_dig(&axes).unwrap();
    assert_eq!(ts.len(), 1);
    assert_eq!(ts[0].y, vec![3, 4, 3]);
    assert_eq!(ts[0].x, bits(&[0.0, 1.0, 2.0]));
    assert_eq!(ts[0].style, LineStyle::Stepped);
    assert_eq!(ts[0].category, SubplotType::DigitalLines);
    assert_eq!(ts[0].name, "d3");
}

#[test]
fn dds_channel_gives_amplitude_and_frequency_traces() {
    let s = seq(vec![dds("rf", &[0.5, 0.7], &[10.0, 20.0], &[0.0, 1.0])]);
    let axes = adjust_y_height(&default_panels());
    let ts = s.traces_dds(&axes).unwrap();
    assert_eq!(ts.len(), 2);
    assert_eq!(ts[0].category, SubplotType::DDSRFAmpl);
    assert_eq!(ts[1].category, SubplotType::DDSRFFreq);
    assert_eq!(ts[0].x, bits(&[0.0, 1.0]));
    assert_eq!(ts[1].x, bits(&[0.0, 1.0]));
    assert_eq!(ts[0].y, bits(&[0.5, 0.7]));
    assert_eq!(ts[1].y, bits(&[10.0, 20.0]));
    assert_eq!(ts[0].axis, Some(2));
    assert_eq!(ts[1].axis, Some(3));
}

#[test]
fn dds_amplitudes_come_before_frequencies() {
    let s = seq(vec![dds("a", &[1.0], &[2.0], &[0.0]), dds("b", &[3.0], &[4.0], &[0.0])]);
    let ts = s.traces_dds(&adjust_y_height(&default_panels())).unwrap();
    let order: Vec<(String, SubplotType)> = ts.iter().map(|t| (t.name.clone(), t.category)).collect();
    assert_eq!(
        order,
        vec![
            ("a".to_string(), SubplotType::DDSRFAmpl),
            ("b".to_string(), SubplotType::DDSRFAmpl),
            ("a".to_string(), SubplotType::DDSRFFreq),
            ("b".to_string(), SubplotType::DDSRFFreq),
        ]
    );
}

#[test]
fn analog_shape_mismatch_names_channel() {
    let s = seq(vec![analog("ao7", &[1.0, 2.0, 3.0], &[0.0, 1.0, 2.0, 3.0])]);
    let r = s.compose(&default_panels());
    match r {
        Err(ChartError::ShapeMismatch { channel, times_len, data_len }) => {
            assert_eq!(channel, "ao7");
            assert_eq!(times_len, 4);
            assert_eq!(data_len, 3);
        }
        Ok(_) => panic!("mismatched lengths were accepted"),
    }
}

#[test]
fn digital_shape_mismatch_is_reported() {
    let s = seq(vec![digital("dl", 1, &[true, false], &[0.0])]);
    match s.traces_dig(&adjust_y_height(&default_panels())) {
        Err(ChartError::ShapeMismatch { channel, times_len, data_len }) => {
            assert_eq!((channel.as_str(), times_len, data_len), ("dl", 1, 2));
        }
        Ok(_) => panic!("mismatched lengths were accepted"),
    }
}

#[test]
fn first_mismatch_in_emission_order_wins() {
    let s = seq(vec![vco("v", &[1.0], &[]), analog("a", &[1.0, 2.0], &[0.0])]);
    match s.to_chart() {
        Err(ChartError::ShapeMismatch { channel, .. }) => assert_eq!(channel, "a"),
        Ok(_) => panic!("mismatched lengths were accepted"),
    }
}

#[test]
fn empty_sequence_gives_empty_chart() {
    let c = Sequence::empty().to_chart().unwrap();
    assert!(c.empty);
    assert!(c.traces.is_empty());
    assert_eq!(c.axes.len(), 8);
}

#[test]
fn non_plottable_channels_give_empty_chart() {
    let rs = channel("bus", 0, DeviceDependentData::RS485(RS485Seq { command: vec!["go".to_string()], times: bits(&[0.0]) }));
    let c = seq(vec![pulse("p"), feedback("f"), rs]).to_chart().unwrap();
    assert!(c.empty);
    assert!(c.traces.is_empty());
}

#[test]
fn chart_metadata_is_fixed() {
    let c = seq(vec![analog("a", &[1.0], &[0.0])]).to_chart().unwrap();
    assert_eq!(c.title, "Innocent Trial");
    assert_eq!(c.background, Background::AliceBlue);
    assert!(c.range_slider);
    assert!(!c.empty);
    assert_eq!(c.traces[0].axis, Some(1));
    assert_eq!(c.traces[0].style, LineStyle::Sampled);
}

#[test]
fn traces_follow_channel_order() {
    let s = seq(vec![
        analog("first", &[1.0], &[0.0]),
        digital("d", 0, &[true], &[0.0]),
        analog("second", &[2.0], &[0.0]),
        analog("third", &[3.0], &[0.0]),
    ]);
    let ts = s.traces_anlg(&adjust_y_height(&default_panels())).unwrap();
    let names: Vec<&str> = ts.iter().map(|t| t.name.as_str()).collect();
    assert_eq!(names, vec!["first", "second", "third"]);
    assert_eq!(s.channels_of(DeviceKind::Analog), vec![0, 2, 3]);
    assert_eq!(s.channels_of(DeviceKind::Digital), vec![1]);
    assert_eq!(s.channels_of(DeviceKind::RS485), Vec::<usize>::new());
}

#[test]
fn chart_emission_order_is_analog_dds_digital_vco() {
    let s = seq(vec![
        vco("v", &[1.0], &[0.0]),
        digital("d", 2, &[true], &[0.0]),
        dds("r", &[1.0], &[2.0], &[0.0]),
        analog("a", &[1.0], &[0.0]),
    ]);
    let c = s.to_chart().unwrap();
    let cats: Vec<SubplotType> = c.traces.iter().map(|t| t.category).collect();
    assert_eq!(
        cats,
        vec![
            SubplotType::AnalogAmpl,
            SubplotType::DDSRFAmpl,
            SubplotType::DDSRFFreq,
            SubplotType::DigitalLines,
            SubplotType::PLLVCOFreq,
        ]
    );
    let axes: Vec<Option<usize>> = c.traces.iter().map(|t| t.axis).collect();
    assert_eq!(axes, vec![Some(1), Some(2), Some(3), Some(8), Some(4)]);
}

#[test]
fn compose_is_deterministic() {
    let s = seq(vec![analog("a", &[1.0, 2.0], &[0.0, 1.0]), digital("d", 1, &[true, false], &[0.0, 1.0])]);
    let a = s.to_chart().unwrap();
    let b = s.to_chart().unwrap();
    assert_eq!(format!("{:?}", a), format!("{:?}", b));
}

#[test]
fn default_layout_domains() {
    let axes = adjust_y_height(&default_panels());
    let total = 3800 + 8 * SUBPLOT_GAP;
    assert_eq!(total, 4120);
    let expected = [(40, 340), (380, 780), (820, 1120), (1160, 1660), (1700, 2300), (2340, 2340), (2380, 2480), (2520, 4120)];
    assert_eq!(axes.len(), 8);
    for (i, (lo, hi)) in expected.iter().enumerate() {
        assert_eq!(axes[i].id, i + 1);
        assert_eq!(axes[i].domain, Domain { lower: *lo, upper: *hi, total });
    }
    assert_eq!(axes[7].category, SubplotType::DigitalLines);
}

#[test]
fn layout_of_zero_heights_is_defined() {
    let panels = vec![
        Panel { category: SubplotType::AnalogAmpl, height: 0 },
        Panel { category: SubplotType::DigitalLines, height: 0 },
    ];
    let axes = adjust_y_height(&panels);
    assert_eq!(axes[0].domain, Domain { lower: 40, upper: 40, total: 80 });
    assert_eq!(axes[1].domain, Domain { lower: 80, upper: 80, total: 80 });
}

#[test]
fn layout_of_no_panels_is_empty() {
    assert!(adjust_y_height(&Vec::new()).is_empty());
}

#[test]
fn layout_domains_tile_in_order() {
    let panels = vec![
        Panel { category: SubplotType::PLLVCOFreq, height: 7 },
        Panel { category: SubplotType::AnalogAmpl, height: 0 },
        Panel { category: SubplotType::DDSRFAmpl, height: 13 },
    ];
    let axes: Vec<AxisDef> = adjust_y_height(&panels);
    assert_eq!(axes[0].domain.lower, SUBPLOT_GAP);
    for i in 0..2 {
        assert_eq!(axes[i + 1].domain.lower, axes[i].domain.upper + SUBPLOT_GAP);
    }
    assert_eq!(axes[2].domain.upper, axes[2].domain.total);
    assert_eq!(axes[2].domain.total, 3 * SUBPLOT_GAP + 20);
}

#[test]
fn layout_fits_detects_overflow() {
    assert!(layout_fits(&default_panels()));
    let big = vec![
        Panel { category: SubplotType::AnalogAmpl, height: u64::MAX - 100 },
        Panel { category: SubplotType::DigitalLines, height: 100 },
    ];
    assert!(!layout_fits(&big));
    let edge = vec![Panel { category: SubplotType::AnalogAmpl, height: u64::MAX - SUBPLOT_GAP }];
    assert!(layout_fits(&edge));
}

#[test]
fn category_without_axis_stays_on_default_axis() {
    let panels = vec![Panel { category: SubplotType::AnalogAmpl, height: 1 }];
    let axes = adjust_y_height(&panels);
    assert_eq!(axis_for(&axes, SubplotType::AnalogAmpl), Some(1));
    assert_eq!(axis_for(&axes, SubplotType::DigitalLines), None);
    let s = seq(vec![digital("d", 0, &[true], &[0.0]), analog("a", &[1.0], &[0.0])]);
    let c = s.compose(&panels).unwrap();
    assert_eq!(c.traces[0].axis, Some(1));
    assert_eq!(c.traces[1].axis, None);
}

#[test]
fn replace_swaps_whole_sequence() {
    let mut s = Sequence::empty();
    s.replace(seq(vec![pulse("p")]));
    assert_eq!(s.seq_channel.len(), 1);
    assert_eq!(s.seq_channel[0].device_dependent.kind(), DeviceKind::PulseGen);
}
