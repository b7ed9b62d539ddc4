pub mod draw;
pub mod element;
pub mod state;
