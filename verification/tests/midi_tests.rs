use broadcast_daw_studio::midi_control::{build_msc, parse_midi_message, parse_msc, MidiMessage, ShowControlCommand};

#[test]
fn msc_simple_commands_are_six_bytes() {
    let cases = [
        (ShowControlCommand::Go, 0x01u8),
        (ShowControlCommand::Stop, 0x02),
        (ShowControlCommand::Resume, 0x03),
        (ShowControlCommand::Pause, 0x07),
        (ShowControlCommand::Reset, 0x0D),
        (ShowControlCommand::GoOff, 0x10),
    ];
    for (cmd, byte) in cases {
        let msg = build_msc(cmd.clone(), 0x10);
        assert_eq!(msg, vec![0xF0, 0x7F, 0x10, 0x02, byte, 0xF7]);
        // a parser needs seven bytes, so the bare command does not parse back
        assert_eq!(parse_msc(&msg), None);
        let padded = vec![0xF0, 0x7F, 0x10, 0x02, byte, 0x00, 0xF7];
        assert_eq!(parse_msc(&padded), Some(cmd));
    }
}

#[test]
fn msc_fire_round_trip() {
    let msg = build_msc(ShowControlCommand::Fire(42), 1);
    assert_eq!(msg, vec![0xF0, 0x7F, 1, 0x02, 0x0B, 42, 0xF7]);
    assert_eq!(parse_msc(&msg), Some(ShowControlCommand::Fire(42)));
}

#[test]
fn msc_cue_messages_carry_the_cue_text() {
    let msg = build_msc(ShowControlCommand::GoCue("12".to_string()), 3);
    assert_eq!(msg, vec![0xF0, 0x7F, 3, 0x02, 0x01, b'1', b'2', 0xF7]);
    let msg = build_msc(ShowControlCommand::LoadCue("A".to_string()), 3);
    assert_eq!(msg, vec![0xF0, 0x7F, 3, 0x02, 0x11, b'A', 0xF7]);
    assert_eq!(parse_msc(&[0xF0, 0x7F, 3, 0x02, 0x11, b'A', 0xF7]), None);
}

#[test]
fn msc_rejects_malformed() {
    assert_eq!(parse_msc(&[0xF0, 0x7F, 0, 0x02, 0x01, 0xF7]), None);
    assert_eq!(parse_msc(&[0xF1, 0x7F, 0, 0x02, 0x01, 0, 0xF7]), None);
    assert_eq!(parse_msc(&[0xF0, 0x7E, 0, 0x02, 0x01, 0, 0xF7]), None);
    assert_eq!(parse_msc(&[0xF0, 0x7F, 0, 0x01, 0x01, 0, 0xF7]), None);
    assert_eq!(parse_msc(&[0xF0, 0x7F, 0, 0x02, 0x55, 0, 0xF7]), None);
}

#[test]
fn channel_messages_parse() {
    match parse_midi_message(&[0x93, 60, 100]) {
        Some(MidiMessage::NoteOn { channel, note, velocity }) => assert_eq!((channel, note, velocity), (3, 60, 100)),
        _ => panic!("expected note on"),
    }
    match parse_midi_message(&[0x80, 60, 0]) {
        Some(MidiMessage::NoteOff { channel, note, .. }) => assert_eq!((channel, note), (0, 60)),
        _ => panic!("expected note off"),
    }
    match parse_midi_message(&[0xBF, 7, 127]) {
        Some(MidiMessage::ControlChange { channel, controller, value }) => {
            assert_eq!((channel, controller, value), (15, 7, 127))
        }
        _ => panic!("expected control change"),
    }
    match parse_midi_message(&[0xC2, 5]) {
        Some(MidiMessage::ProgramChange { channel, program }) => assert_eq!((channel, program), (2, 5)),
        _ => panic!("expected program change"),
    }
    assert!(parse_midi_message(&[0x90, 60]).is_none());
    assert!(parse_midi_message(&[]).is_none());
    assert!(parse_midi_message(&[0xA0, 1, 2]).is_none());
}

#[test]
fn system_messages_parse_as_sysex() {
    match parse_midi_message(&[0xF0, 1, 2, 0xF7]) {
        Some(MidiMessage::SysEx(bytes)) => assert_eq!(bytes, vec![0xF0, 1, 2, 0xF7]),
        _ => panic!("expected sysex"),
    }
    match parse_midi_message(&[0xF1, 0x35]) {
        Some(MidiMessage::SysEx(bytes)) => assert_eq!(bytes, vec![0xF1, 0x35]),
        _ => panic!("expected sysex"),
    }
}
