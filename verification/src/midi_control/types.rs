use vstd::prelude::*;

verus! {

/// A MIDI port as the device scan reports it.
#[derive(Debug, Clone)]
pub struct MidiDeviceInfo {
    pub id: String,
    pub name: String,
    pub direction: MidiDirection,
}

#[derive(Debug, Clone, Copy, PartialEq, Eq, Structural)]
pub enum MidiDirection {
    Input,
    Output,
}

/// A decoded MIDI message.
#[derive(Debug, Clone)]
pub enum MidiMessage {
    NoteOn { channel: u8, note: u8, velocity: u8 },
    NoteOff { channel: u8, note: u8, velocity: u8 },
    ControlChange { channel: u8, controller: u8, value: u8 },
    ProgramChange { channel: u8, program: u8 },
    SysEx(Vec<u8>),
    ShowControl(ShowControlCommand),
    TimecodeQuarterFrame { message_type: u8, data: u8 },
}

/// A MIDI Show Control command.
#[derive(Debug, Clone, PartialEq, Eq)]
pub enum ShowControlCommand {
    Go,
    Stop,
    Resume,
    Pause,
    Reset,
    GoOff,
    Fire(u8),
    GoCue(String),
    LoadCue(String),
}

/// What incoming MIDI a mapping reacts to.
#[derive(Debug, Clone)]
pub enum MidiTrigger {
    ControlChange { channel: u8, controller: u8 },
    NoteOn { channel: u8, note: u8 },
    ShowControl(ShowControlCommand),
}

} // verus!
