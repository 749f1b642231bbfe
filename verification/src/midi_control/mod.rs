pub mod types;
pub mod msc;
pub mod manager;

pub use types::{MidiDeviceInfo, MidiDirection, MidiMessage, ShowControlCommand, MidiTrigger};
pub use msc::{parse_msc, build_msc};
pub use manager::parse_midi_message;
