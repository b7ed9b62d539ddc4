pub mod chart;
pub mod element;
pub mod file;
pub mod parser;
