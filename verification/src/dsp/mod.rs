pub mod types;

pub use types::FilterType;
