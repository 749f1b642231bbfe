pub mod timecode;
pub mod midi_control;
pub mod sync;
pub mod shared;
pub mod dag;
pub mod automation;
pub mod audio_engine;
pub mod vst3_host;
pub mod dsp;
