//! Helpers on file names and on what may be uploaded.

pub mod file_utils;
pub mod validation;

pub use file_utils::{get_file_extension, sanitize_filename};
pub use validation::{
    validate_directory_exists, validate_file_exists, validate_file_extension, validate_file_size,
    ValidationError,
};
