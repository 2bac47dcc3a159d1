//! Utilities: URI paths, file paths and value comparison.
pub mod constants;
pub mod uri_path;
pub mod file_path;
pub mod decimal;
