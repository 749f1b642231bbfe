pub mod ids;
pub mod types;
pub mod rt_params;
