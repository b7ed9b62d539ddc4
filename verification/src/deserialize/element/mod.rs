pub mod chart;
pub mod notes;
