pub mod lexer;
pub mod math;
pub mod slide_path;
