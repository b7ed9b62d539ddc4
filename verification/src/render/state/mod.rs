pub mod setting;
