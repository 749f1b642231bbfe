use vstd::prelude::*;

verus! {

/// Kinds of equaliser band the mixer surface offers.
#[derive(Debug, Clone, Copy, PartialEq, Eq, Structural)]
pub enum EqBandType {
    LowShelf,
    HighShelf,
    Bell,
    Notch,
    HighPass,
    LowPass,
}

/// The audio engine's device and buffer configuration.
#[derive(Debug, Clone)]
pub struct AudioConfig {
    pub input_device: String,
    pub output_device: String,
    pub sample_rate: u32,
    pub buffer_size: u32,
    pub exclusive_mode: bool,
}

/// An audio device as the device scan describes it.
#[derive(Debug, Clone)]
pub struct AudioDeviceInfo {
    pub id: String,
    pub name: String,
    pub device_type: String,
    pub channels: usize,
    pub sample_rates: Vec<u32>,
    pub buffer_sizes: Vec<u32>,
    pub is_exclusive: bool,
}

} // verus!
