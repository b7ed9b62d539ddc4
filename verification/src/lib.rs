//! Verified core of a parser and model for `SiMai` rhythm-game charts: positions on the
//! eight-button ring and its sensor areas, the circular arithmetic between them, note
//! decorations, the processing of slide branches, and the metadata file format.

pub mod deserialize;
pub mod render;
pub mod statistics;
