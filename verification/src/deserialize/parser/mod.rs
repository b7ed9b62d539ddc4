pub mod note_parser;
pub mod readable;
