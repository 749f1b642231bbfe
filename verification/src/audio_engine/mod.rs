pub mod device;
pub mod transport;

pub use device::AudioDevice;
pub use transport::{RecordingInfo, Transport, TransportState};
