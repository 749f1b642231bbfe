pub mod clock;
pub mod coordinator;

pub use clock::PositionBroadcast;
pub use coordinator::SyncRuntimeHandle;
