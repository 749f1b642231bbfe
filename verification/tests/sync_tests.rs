use broadcast_daw_studio::midi_control::MidiMessage;
use broadcast_daw_studio::sync::coordinator::{midi_reaction, MidiReaction};
use broadcast_daw_studio::sync::coordinator::{trigger_action_effects, ActionEffect};
use broadcast_daw_studio::automation::{TimecodeTrigger, TriggerAction, TriggerCondition};
use broadcast_daw_studio::midi_control::ShowControlCommand;
use broadcast_daw_studio::sync::clock::ClockStateAtomic;
use broadcast_daw_studio::sync::coordinator::{handle_msc_command, remove_trigger, tick_triggers};
use broadcast_daw_studio::sync::{PositionBroadcast, SyncRuntimeHandle};
use broadcast_daw_studio::timecode::{FrameRate, Timecode};
use std::sync::atomic::Ordering;

#[test]
fn test_broadcast_serde() {
    let mut b = PositionBroadcast::default();
    b.position_seconds_bits = 3661.5f64.to_bits();
    b.timecode_hh = 1;
    b.timecode_mm = 1;
    b.timecode_ss = 1;
    b.timecode_ff = 15;
    let bytes = b.to_bytes();
    let back = PositionBroadcast::from_bytes(&bytes).unwrap();
    assert_eq!(back.timecode_hh, 1);
    assert_eq!(f64::from_bits(back.position_seconds_bits), 3661.5);
}

#[test]
fn broadcast_layout_is_big_endian() {
    let b = PositionBroadcast {
        session_id: 0x0102030405060708,
        sequence: 9,
        wall_time_us: 10,
        position_seconds_bits: 11,
        timecode_hh: 12,
        timecode_mm: 13,
        timecode_ss: 14,
        timecode_ff: 15,
        is_playing: true,
        speed_ratio_bits: 1.0f32.to_bits(),
    };
    let bytes = b.to_bytes();
    assert_eq!(bytes.len(), 56);
    assert_eq!(&bytes[0..8], &[1, 2, 3, 4, 5, 6, 7, 8]);
    assert_eq!(bytes[15], 9);
    assert_eq!(&bytes[32..37], &[12, 13, 14, 15, 1]);
    assert_eq!(&bytes[37..41], &1.0f32.to_bits().to_be_bytes());
    assert!(bytes[41..].iter().all(|&x| x == 0));
    assert_eq!(PositionBroadcast::from_bytes(&bytes).unwrap(), b);
}

#[test]
fn short_datagram_is_refused() {
    assert!(PositionBroadcast::from_bytes(&[0u8; 40]).is_none());
    let mut buf = [0u8; 41];
    buf[36] = 7;
    assert!(PositionBroadcast::from_bytes(&buf).unwrap().is_playing);
}

fn trigger(name: &str, condition: TriggerCondition, at: Timecode) -> TimecodeTrigger {
    TimecodeTrigger::new(name.to_string(), condition, at, TriggerAction::StartTransport)
}

#[test]
fn exact_frame_trigger_fires_once() {
    let at = Timecode::new(0, 0, 1, 0, FrameRate::Fps25);
    let mut t = trigger("cue", TriggerCondition::AtExactFrame, at);
    assert_eq!(t.check(&at, 25), Some(TriggerAction::StartTransport));
    assert!(t.fired);
    assert_eq!(t.check(&at, 25), None);
    t.reset();
    assert!(!t.fired);
    assert_eq!(t.check(&at, 25), Some(TriggerAction::StartTransport));
}

#[test]
fn after_and_before_conditions() {
    let at = Timecode::new(0, 0, 1, 0, FrameRate::Fps25);
    let early = Timecode::new(0, 0, 0, 10, FrameRate::Fps25);
    let late = Timecode::new(0, 0, 2, 0, FrameRate::Fps25);
    let mut after = trigger("after", TriggerCondition::AfterFrame, at);
    assert_eq!(after.check(&early, 10), None);
    assert!(after.check(&late, 50).is_some());
    let mut before = trigger("before", TriggerCondition::BeforeFrame, at);
    assert_eq!(before.check(&late, 50), None);
    assert!(before.check(&early, 10).is_some());
}

#[test]
fn periodic_trigger_fires_every_period() {
    let at = Timecode::new(0, 0, 0, 0, FrameRate::Fps25);
    let mut t = trigger("tick", TriggerCondition::EveryNFrames { n: 5 }, at);
    assert!(t.check(&at, 10).is_some());
    assert!(t.check(&at, 15).is_some());
    assert!(t.check(&at, 16).is_none());
}

#[test]
fn tick_reports_fired_triggers_in_order() {
    let at = Timecode::new(0, 0, 1, 0, FrameRate::Fps25);
    let mut ts = vec![
        trigger("a", TriggerCondition::AtExactFrame, at),
        trigger("b", TriggerCondition::BeforeFrame, Timecode::new(0, 0, 0, 1, FrameRate::Fps25)),
        trigger("c", TriggerCondition::AfterFrame, at),
    ];
    let events = tick_triggers(&mut ts, &at);
    let names: Vec<&str> = events.iter().map(|e| e.0.as_str()).collect();
    assert_eq!(names, vec!["a", "c"]);
    assert!(ts[0].fired && !ts[1].fired && ts[2].fired);
    assert_eq!(tick_triggers(&mut ts, &at).len(), 0);
}

#[test]
fn remove_and_reset_by_msc() {
    let at = Timecode::new(0, 0, 1, 0, FrameRate::Fps25);
    let mut ts = vec![trigger("a", TriggerCondition::AtExactFrame, at), trigger("b", TriggerCondition::AfterFrame, at)];
    let id = ts[0].id;
    tick_triggers(&mut ts, &at);
    assert_eq!(handle_msc_command(&mut ts, ShowControlCommand::Go), "GO");
    assert!(ts[0].fired);
    assert_eq!(handle_msc_command(&mut ts, ShowControlCommand::Reset), "RESET");
    assert!(!ts[0].fired && !ts[1].fired);
    assert_eq!(handle_msc_command(&mut ts, ShowControlCommand::Fire(3)), "FIRE");
    assert_eq!(handle_msc_command(&mut ts, ShowControlCommand::GoCue("1".to_string())), "GO_CUE");
    assert!(remove_trigger(&mut ts, id));
    assert_eq!(ts.len(), 1);
    assert!(!remove_trigger(&mut ts, id));
}

#[test]
fn shared_flags_start_cleared() {
    let h = SyncRuntimeHandle::new();
    assert!(!h.midi_connected.load(Ordering::SeqCst));
    assert!(!h.ltc_active.load(Ordering::SeqCst));
    let c = ClockStateAtomic::new();
    assert_eq!(c.samples_elapsed.load(Ordering::SeqCst), 0);
    assert!(!c.locked_to_external.load(Ordering::SeqCst));
}

#[test]
fn midi_messages_map_to_reactions() {
    assert!(matches!(
        midi_reaction(MidiMessage::NoteOn { channel: 3, note: 60, velocity: 1 }),
        MidiReaction::StartDucking
    ));
    assert!(matches!(
        midi_reaction(MidiMessage::NoteOff { channel: 0, note: 60, velocity: 0 }),
        MidiReaction::StopDucking
    ));
    assert!(matches!(midi_reaction(MidiMessage::NoteOn { channel: 0, note: 61, velocity: 90 }), MidiReaction::Ignore));
    assert!(matches!(
        midi_reaction(MidiMessage::ControlChange { channel: 0, controller: 60, value: 1 }),
        MidiReaction::Ignore
    ));
    match midi_reaction(MidiMessage::ShowControl(ShowControlCommand::GoCue("7".to_string()))) {
        MidiReaction::ShowControl(cmd) => assert_eq!(cmd, ShowControlCommand::GoCue("7".to_string())),
        _ => panic!("expected show control"),
    }
}

#[test]
fn trigger_actions_map_to_effects() {
    let actions = [
        TriggerAction::MuteTrack { track_id: 5, mute: true },
        TriggerAction::SoloTrack { track_id: 5, solo: true },
        TriggerAction::BypassNode { node_id: 6, bypass: false },
        TriggerAction::SetTrackGain { track_id: 7, value: 0.5f32.to_bits() },
        TriggerAction::SetMasterVolume { value: 0.25f32.to_bits() },
        TriggerAction::StartDucking,
        TriggerAction::StopDucking,
        TriggerAction::StartTransport,
    ];
    let effects = trigger_action_effects(&actions);
    assert_eq!(
        effects,
        vec![
            ActionEffect::SetNodeBypass { node_id: 5, bypassed: true },
            ActionEffect::Nothing,
            ActionEffect::SetNodeBypass { node_id: 6, bypassed: false },
            ActionEffect::SetGain { node_id: 7, gain: 0.5f32.to_bits() },
            ActionEffect::SetMasterVolume { volume: 0.25f32.to_bits() },
            ActionEffect::StartDucking,
            ActionEffect::StopDucking,
            ActionEffect::Nothing,
        ]
    );
}
