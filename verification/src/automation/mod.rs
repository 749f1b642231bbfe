pub mod triggers;

pub use triggers::{TriggerCondition, TriggerAction, TimecodeTrigger};
