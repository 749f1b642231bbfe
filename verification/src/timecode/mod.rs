pub mod types;
pub mod ltc;

pub use types::{FrameRate, Timecode};
pub use ltc::{LtcSourceHandle, LtcDecoder, LtcStep, decode_frame};
