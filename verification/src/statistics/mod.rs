pub mod note_statistics;
