pub mod scanner;
pub mod plugin;
pub mod host;

pub use scanner::{PluginInfo, PluginCategory, Vst3Scanner, LoadedPluginLibrary};
pub use plugin::PluginParameter;
