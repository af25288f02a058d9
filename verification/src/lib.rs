pub mod command_db;
pub mod error;
pub mod named_values;
pub mod num_text;
