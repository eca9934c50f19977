pub mod error;
pub mod flat_index;
pub mod matrices;
