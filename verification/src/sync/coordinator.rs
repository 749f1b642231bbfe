use vstd::prelude::*;
use std::sync::Arc;
use std::sync::atomic::AtomicBool;
use crate::automation::triggers::{TimecodeTrigger, TriggerAction, fires, has_valid_period};
use crate::midi_control::types::{MidiMessage, ShowControlCommand};
use crate::timecode::types::{Timecode, label_frame_count};

verus! {

/// A trigger after `check` at a timecode with the given frame count.
pub open spec fn after_check(t: TimecodeTrigger, tc: Timecode, frames_passed: int) -> TimecodeTrigger {
    TimecodeTrigger { fired: t.fired || fires(t, tc, frames_passed), ..t }
}

/// A trigger after a reset.
pub open spec fn after_reset(t: TimecodeTrigger) -> TimecodeTrigger {
    TimecodeTrigger {
        fired: if t.rearm_after_reset {
            false
        } else {
            t.fired
        },
        ..t
    }
}

/// The names and actions of the triggers that fire, in list order.
pub open spec fn fired_events(ts: Seq<TimecodeTrigger>, tc: Timecode, frames_passed: int) -> Seq<(Seq<char>, TriggerAction)> {
    ts.filter(|t: TimecodeTrigger| fires(t, tc, frames_passed)).map_values(
        |t: TimecodeTrigger| (t.name@, t.action),
    )
}

/// Checks every trigger at the current timecode, counting the frames passed as the
/// timecode's own frame count, and returns the name and action of each trigger that
/// fired, in list order.
pub fn tick_triggers(triggers: &mut Vec<TimecodeTrigger>, tc: &Timecode) -> (events: Vec<(String, TriggerAction)>)
    requires
        forall|i: int| 0 <= i < old(triggers)@.len() ==> has_valid_period(#[trigger] old(triggers)@[i].condition),
    ensures
        final(triggers)@ == old(triggers)@.map_values(
            |t: TimecodeTrigger| after_check(t, *tc, label_frame_count(*tc)),
        ),
        events@.map_values(|e: (String, TriggerAction)| (e.0@, e.1)) == fired_events(
            old(triggers)@,
            *tc,
            label_frame_count(*tc),
        ),
{
    let frames = tc.to_total_frames();
    let ghost f = label_frame_count(*tc);
    let ghost orig = triggers@;
    let mut events: Vec<(String, TriggerAction)> = Vec::new();
    let mut i: usize = 0;
    while i < triggers.len()
        invariant
            frames == f,
            triggers@.len() == orig.len(),
            i <= orig.len(),
            forall|j: int| 0 <= j < orig.len() ==> has_valid_period(#[trigger] orig[j].condition),
            forall|j: int| 0 <= j < i ==> #[trigger] triggers@[j] == after_check(orig[j], *tc, f),
            forall|j: int| i <= j < orig.len() ==> #[trigger] triggers@[j] == orig[j],
            events@.map_values(|e: (String, TriggerAction)| (e.0@, e.1)) == fired_events(
                orig.subrange(0, i as int),
                *tc,
                f,
            ),
        decreases orig.len() - i,
    {
        let mut t = triggers[i].clone();
        let ghost before = events@;
        let fired_now = t.check(tc, frames);
        match fired_now {
            Some(action) => {
                events.push((t.name.clone(), action));
                proof {
                    assert(events@.map_values(|e: (String, TriggerAction)| (e.0@, e.1)) =~= before.map_values(
                        |e: (String, TriggerAction)| (e.0@, e.1),
                    ).push((orig[i as int].name@, orig[i as int].action)));
                }
            },
            None => {},
        }
        triggers.set(i, t);
        proof {
            let pred = |t: TimecodeTrigger| fires(t, *tc, f);
            let g = |t: TimecodeTrigger| (t.name@, t.action);
            let sub = orig.subrange(0, i + 1);
            let sub0 = orig.subrange(0, i as int);
            assert(sub.drop_last() =~= sub0);
            assert(sub.last() == orig[i as int]);
            reveal_with_fuel(Seq::filter, 1);
            if fires(orig[i as int], *tc, f) {
                assert(sub.filter(pred) == sub0.filter(pred).push(orig[i as int]));
                assert(sub.filter(pred).map_values(g) =~= sub0.filter(pred).map_values(g).push(g(orig[i as int])));
            } else {
                assert(sub.filter(pred) == sub0.filter(pred));
            }
        }
        i += 1;
    }
    proof {
        assert(orig.subrange(0, orig.len() as int) =~= orig);
        assert(triggers@ =~= orig.map_values(|t: TimecodeTrigger| after_check(t, *tc, f)));
    }
    events
}

/// Removes every trigger with the id; reports whether any was removed.
pub fn remove_trigger(triggers: &mut Vec<TimecodeTrigger>, id: u128) -> (removed: bool)
    ensures
        final(triggers)@ == old(triggers)@.filter(|t: TimecodeTrigger| t.id != id),
        removed <==> exists|j: int| 0 <= j < old(triggers)@.len() && (#[trigger] old(triggers)@[j]).id == id,
{
    let len_before = triggers.len();
    let mut kept: Vec<TimecodeTrigger> = Vec::new();
    let mut i: usize = 0;
    while i < triggers.len()
        invariant
            triggers@ == old(triggers)@,
            len_before == triggers@.len(),
            i <= triggers@.len(),
            kept@ == triggers@.subrange(0, i as int).filter(|t: TimecodeTrigger| t.id != id),
            kept@.len() <= i,
            kept@.len() < i <==> exists|j: int| 0 <= j < i && (#[trigger] triggers@[j]).id == id,
        decreases triggers@.len() - i,
    {
        let t = triggers[i].clone();
        if t.id != id {
            kept.push(t);
        }
        proof {
            let sub = triggers@.subrange(0, i + 1);
            assert(sub.drop_last() =~= triggers@.subrange(0, i as int));
            reveal_with_fuel(Seq::filter, 1);
        }
        i += 1;
    }
    proof {
        assert(triggers@.subrange(0, triggers@.len() as int) =~= triggers@);
    }
    *triggers = kept;
    triggers.len() < len_before
}

/// The event name an MSC command is reported under.
pub open spec fn msc_event_name(cmd: ShowControlCommand) -> Seq<char> {
    match cmd {
        ShowControlCommand::Go => "GO"@,
        ShowControlCommand::Stop => "STOP"@,
        ShowControlCommand::Resume => "RESUME"@,
        ShowControlCommand::Pause => "PAUSE"@,
        ShowControlCommand::Reset => "RESET"@,
        ShowControlCommand::GoOff => "GO_OFF"@,
        ShowControlCommand::Fire(_) => "FIRE"@,
        ShowControlCommand::GoCue(_) => "GO_CUE"@,
        ShowControlCommand::LoadCue(_) => "LOAD_CUE"@,
    }
}

/// Handles an incoming MSC command: `Reset` resets every trigger; every command is
/// reported under its event name.
pub fn handle_msc_command(triggers: &mut Vec<TimecodeTrigger>, cmd: ShowControlCommand) -> (name: String)
    ensures
        name@ == msc_event_name(cmd),
        cmd is Reset ==> final(triggers)@ == old(triggers)@.map_values(|t: TimecodeTrigger| after_reset(t)),
        !(cmd is Reset) ==> final(triggers)@ == old(triggers)@,
{
    let name = match cmd {
        ShowControlCommand::Go => "GO",
        ShowControlCommand::Stop => "STOP",
        ShowControlCommand::Resume => "RESUME",
        ShowControlCommand::Pause => "PAUSE",
        ShowControlCommand::Reset => {
            let ghost orig = triggers@;
            let mut i: usize = 0;
            while i < triggers.len()
                invariant
                    triggers@.len() == orig.len(),
                    i <= orig.len(),
                    forall|j: int| 0 <= j < i ==> #[trigger] triggers@[j] == after_reset(orig[j]),
                    forall|j: int| i <= j < orig.len() ==> #[trigger] triggers@[j] == orig[j],
                decreases orig.len() - i,
            {
                let mut t = triggers[i].clone();
                t.reset();
                triggers.set(i, t);
                i += 1;
            }
            proof {
                assert(triggers@ =~= orig.map_values(|t: TimecodeTrigger| after_reset(t)));
            }
            "RESET"
        },
        ShowControlCommand::GoOff => "GO_OFF",
        ShowControlCommand::Fire(_) => "FIRE",
        ShowControlCommand::GoCue(_) => "GO_CUE",
        ShowControlCommand::LoadCue(_) => "LOAD_CUE",
    };
    name.to_owned()
}

/// How the sync coordinator reacts to an incoming MIDI message.
#[derive(Debug)]
pub enum MidiReaction {
    /// A show-control command to handle.
    ShowControl(ShowControlCommand),
    /// Note 60 pressed: start ducking.
    StartDucking,
    /// Note 60 released: release the ducking.
    StopDucking,
    /// Anything else is only reported.
    Ignore,
}

/// The reaction to a message: show control is handled, note 60 on any channel starts
/// (note on) or releases (note off) the ducking, whatever the velocity.
pub open spec fn reaction_of(msg: MidiMessage) -> MidiReaction {
    match msg {
        MidiMessage::ShowControl(cmd) => MidiReaction::ShowControl(cmd),
        MidiMessage::NoteOn { note, .. } => if note == 60 {
            MidiReaction::StartDucking
        } else {
            MidiReaction::Ignore
        },
        MidiMessage::NoteOff { note, .. } => if note == 60 {
            MidiReaction::StopDucking
        } else {
            MidiReaction::Ignore
        },
        _ => MidiReaction::Ignore,
    }
}

pub fn midi_reaction(msg: MidiMessage) -> (r: MidiReaction)
    ensures
        r == reaction_of(msg),
{
    match msg {
        MidiMessage::ShowControl(cmd) => MidiReaction::ShowControl(cmd),
        MidiMessage::NoteOn { note, .. } => if note == 60 {
            MidiReaction::StartDucking
        } else {
            MidiReaction::Ignore
        },
        MidiMessage::NoteOff { note, .. } => if note == 60 {
            MidiReaction::StopDucking
        } else {
            MidiReaction::Ignore
        },
        _ => MidiReaction::Ignore,
    }
}

/// What a fired trigger's action does to the audio side: a parameter change queued for
/// the audio thread, a ducking change, or nothing. Gains and volumes are `f32` bits.
#[derive(Debug, Clone, Copy, PartialEq, Eq, Structural)]
pub enum ActionEffect {
    SetNodeBypass { node_id: u128, bypassed: bool },
    SetGain { node_id: u128, gain: u32 },
    SetMasterVolume { volume: u32 },
    StartDucking,
    StopDucking,
    Nothing,
}

/// Muting a track bypasses its node; gains and the master volume become parameter
/// changes; ducking actions drive the envelope; solo, cues, transport and position
/// broadcast have no effect here.
pub open spec fn effect_of(a: TriggerAction) -> ActionEffect {
    match a {
        TriggerAction::MuteTrack { track_id, mute } => ActionEffect::SetNodeBypass {
            node_id: track_id,
            bypassed: mute,
        },
        TriggerAction::BypassNode { node_id, bypass } => ActionEffect::SetNodeBypass {
            node_id,
            bypassed: bypass,
        },
        TriggerAction::StartDucking => ActionEffect::StartDucking,
        TriggerAction::StopDucking => ActionEffect::StopDucking,
        TriggerAction::SetTrackGain { track_id, value } => ActionEffect::SetGain {
            node_id: track_id,
            gain: value,
        },
        TriggerAction::SetMasterVolume { value } => ActionEffect::SetMasterVolume { volume: value },
        _ => ActionEffect::Nothing,
    }
}

pub fn trigger_action_effect(a: TriggerAction) -> (e: ActionEffect)
    ensures
        e == effect_of(a),
{
    match a {
        TriggerAction::MuteTrack { track_id, mute } => ActionEffect::SetNodeBypass {
            node_id: track_id,
            bypassed: mute,
        },
        TriggerAction::SoloTrack { .. } => ActionEffect::Nothing,
        TriggerAction::BypassNode { node_id, bypass } => ActionEffect::SetNodeBypass {
            node_id,
            bypassed: bypass,
        },
        TriggerAction::StartDucking => ActionEffect::StartDucking,
        TriggerAction::StopDucking => ActionEffect::StopDucking,
        TriggerAction::SetTrackGain { track_id, value } => ActionEffect::SetGain {
            node_id: track_id,
            gain: value,
        },
        TriggerAction::SetMasterVolume { value } => ActionEffect::SetMasterVolume { volume: value },
        TriggerAction::TriggerCue { .. } => ActionEffect::Nothing,
        TriggerAction::StartTransport => ActionEffect::Nothing,
        TriggerAction::StopTransport => ActionEffect::Nothing,
        TriggerAction::BroadcastPosition => ActionEffect::Nothing,
    }
}

/// The effects of a list of fired actions, in order.
pub fn trigger_action_effects(actions: &[TriggerAction]) -> (effects: Vec<ActionEffect>)
    ensures
        effects@ == actions@.map_values(|a: TriggerAction| effect_of(a)),
{
    let mut effects: Vec<ActionEffect> = Vec::new();
    let mut i: usize = 0;
    while i < actions.len()
        invariant
            i <= actions@.len(),
            effects@ == actions@.subrange(0, i as int).map_values(|a: TriggerAction| effect_of(a)),
        decreases actions@.len() - i,
    {
        effects.push(trigger_action_effect(actions[i]));
        i += 1;
        assert(effects@ =~= actions@.subrange(0, i as int).map_values(|a: TriggerAction| effect_of(a)));
    }
    assert(actions@.subrange(0, actions@.len() as int) =~= actions@);
    effects
}

/// Flags the sync runtime shares across threads.
#[derive(Clone)]
pub struct SyncRuntimeHandle {
    pub midi_connected: Arc<AtomicBool>,
    pub ltc_active: Arc<AtomicBool>,
}

impl SyncRuntimeHandle {
    /// Both flags start cleared. The atomics' contents have no model here, so the
    /// contract states nothing of them.
    pub fn new() -> (h: Self) {
        Self {
            midi_connected: Arc::new(AtomicBool::new(false)),
            ltc_active: Arc::new(AtomicBool::new(false)),
        }
    }
}

impl Default for SyncRuntimeHandle {
    fn default() -> (h: Self) {
        Self::new()
    }
}

/// Only note 60 drives the ducking, on any channel and at any velocity: a note-on for it
/// starts the ducking and a note-off releases it; show control is handed on as it came;
/// every other message, notes on other keys included, is ignored.
pub proof fn lemma_reaction_by_message(msg: MidiMessage)
    ensures
        reaction_of(msg) is StartDucking <==> (msg matches MidiMessage::NoteOn { note, .. } && note == 60),
        reaction_of(msg) is StopDucking <==> (msg matches MidiMessage::NoteOff { note, .. } && note == 60),
        reaction_of(msg) is ShowControl <==> msg is ShowControl,
        msg matches MidiMessage::ShowControl(c) ==> reaction_of(msg) == MidiReaction::ShowControl(c),
        reaction_of(msg) is Ignore <==> !(msg is ShowControl) && !(msg matches MidiMessage::NoteOn { note, .. } && note
            == 60) && !(msg matches MidiMessage::NoteOff { note, .. } && note == 60),
{
}

} // verus!
