use seqlines::{deserialize_bool, deserialize_str, serialize_bool, serialize_str, ParseError};

#[test]
fn levels_decode_nonzero_as_high() {
    assert_eq!(deserialize_bool(&vec![0, 1, 0, 7, 255]), vec![false, true, false, true, true]);
    assert_eq!(deserialize_bool(&vec![]), Vec::<bool>::new());
}

#[test]
fn levels_round_trip() {
    let wire = vec![1, 0, 0, 1];
    assert_eq!(serialize_bool(&deserialize_bool(&wire)), wire);
    let levels = vec![true, false, true];
    assert_eq!(deserialize_bool(&serialize_bool(&levels)), levels);
}

#[test]
fn levels_other_than_one_do_not_round_trip() {
    assert_eq!(serialize_bool(&deserialize_bool(&vec![2])), vec![1]);
}

#[test]
fn commands_decode_as_utf8() {
    let wire = vec![b"SET 1".to_vec(), "temp \u{b0}C".as_bytes().to_vec(), vec![]];
    let cmds = deserialize_str(&wire).unwrap();
    assert_eq!(cmds, vec!["SET 1".to_string(), "temp \u{b0}C".to_string(), String::new()]);
}

#[test]
fn invalid_command_is_reported_not_dropped() {
    let wire = vec![b"ok".to_vec(), vec![0xff, 0xfe], b"later".to_vec()];
    assert_eq!(deserialize_str(&wire), Err(ParseError::InvalidUtf8 { command: 1 }));
}

#[test]
fn commands_round_trip() {
    let cmds = vec!["RUN".to_string(), "\u{3a9}".to_string()];
    let wire = serialize_str(&cmds);
    assert_eq!(wire, vec![b"RUN".to_vec(), vec![0xce, 0xa9]]);
    assert_eq!(deserialize_str(&wire), Ok(cmds));
}

use seqlines::{
    AnalogSeq, ChannelSequence, ChannelWire, DDSWire, DataWire, DeviceDependentData, DigitalWire,
    FreqFBSeq, PulseGenSeq, RS485Wire, Sequence, VCOSeq,
};

fn wire_channel(name: &str, sigchan: u8, data: DataWire) -> ChannelWire {
    ChannelWire { data, name: name.to_string(), sigchan, address: 9 }
}

fn sample_document() -> Vec<ChannelWire> {
    vec![
        wire_channel("ao", 0, DataWire::Analog(AnalogSeq { amplitude: vec![1.5f64.to_bits()], times: vec![0.0f64.to_bits()] })),
        wire_channel("do", 2, DataWire::Digital(DigitalWire { value: vec![0, 1, 1], times: vec![0, 1, 2] })),
        wire_channel("bus", 0, DataWire::RS485(RS485Wire { command: vec![b"GO".to_vec(), vec![0xc3, 0xa9]], times: vec![5, 6] })),
        wire_channel("vco", 0, DataWire::PLLVCO(VCOSeq { frequency: vec![7], times: vec![8] })),
        wire_channel(
            "rf",
            0,
            DataWire::DDSRF(DDSWire { amplitude: vec![1], frequency: vec![2], feature_enable: vec![1], feature_value: vec![3], times: vec![4] }),
        ),
        wire_channel("pg", 0, DataWire::PulseGen(PulseGenSeq { time_delay: 11, time_width: 12, polarity: true })),
        wire_channel("fb", 0, DataWire::FreqFB(FreqFBSeq {})),
    ]
}

#[test]
fn document_round_trip_keeps_every_channel() {
    let doc = sample_document();
    let seq = Sequence::from_wire(&doc).unwrap();
    let back = seq.to_wire();
    assert_eq!(format!("{:?}", back), format!("{:?}", doc));
}

#[test]
fn document_decodes_levels_and_commands() {
    let seq = Sequence::from_wire(&sample_document()).unwrap();
    assert_eq!(seq.seq_channel.len(), 7);
    match &seq.seq_channel[1].device_dependent {
        DeviceDependentData::Digital(d) => assert_eq!(d.value, vec![false, true, true]),
        _ => panic!("digital channel decoded as another kind"),
    }
    match &seq.seq_channel[2].device_dependent {
        DeviceDependentData::RS485(r) => assert_eq!(r.command, vec!["GO".to_string(), "\u{e9}".to_string()]),
        _ => panic!("RS-485 channel decoded as another kind"),
    }
    assert_eq!(seq.seq_channel[1].index_sigchan, 2);
    assert_eq!(seq.seq_channel[1].address, 9);
    assert_eq!(seq.seq_channel[1].name, "do");
}

#[test]
fn document_with_bad_command_names_channel() {
    let mut doc = sample_document();
    doc.insert(0, wire_channel("bad", 0, DataWire::RS485(RS485Wire { command: vec![b"a".to_vec(), b"b".to_vec(), vec![0x80]], times: vec![0, 1, 2] })));
    match Sequence::from_wire(&doc) {
        Err((channel, e)) => {
            assert_eq!(channel, 0);
            assert_eq!(e, ParseError::InvalidUtf8 { command: 2 });
        }
        Ok(_) => panic!("invalid UTF-8 was accepted"),
    }
}

#[test]
fn channel_wire_level_two_reads_high() {
    let w = wire_channel("d", 0, DataWire::Digital(DigitalWire { value: vec![2, 0], times: vec![0, 1] }));
    let c = ChannelSequence::from_wire(&w).unwrap();
    match c.to_wire().data {
        DataWire::Digital(d) => assert_eq!(d.value, vec![1, 0]),
        _ => panic!("digital channel encoded as another kind"),
    }
}
