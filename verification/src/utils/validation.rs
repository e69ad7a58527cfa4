//! What may be uploaded: how large a file, and of which extensions.

use super::file_utils::{get_file_extension, lower_extension};
use crate::text::{lists_text, texts};
use vstd::prelude::*;
use vstd::string::StringExecFns;

verus! {

/// Why a file is refused.
#[derive(Clone, Debug, PartialEq, Eq)]
pub enum ValidationError {
    /// The file has `size` bytes, and `max_size` is the most allowed.
    FileTooLarge { size: u64, max_size: u64 },
    /// The extension, in lower case, is not among those allowed.
    ExtensionNotAllowed(String),
    /// Nothing is at this path.
    FileNotFound(String),
    /// Nothing is at this path, where a directory was to be.
    DirectoryNotFound(String),
    /// What is at this path is no directory.
    NotADirectory(String),
}

/// Accepts a file of `size` bytes where that is no more than `max_size`.
pub fn validate_file_size(size: u64, max_size: u64) -> (r: Result<(), ValidationError>)
    ensures
        r is Ok <==> size <= max_size,
        r matches Err(e) ==> e == (ValidationError::FileTooLarge { size, max_size }),
{
    if size > max_size {
        Err(ValidationError::FileTooLarge { size, max_size })
    } else {
        Ok(())
    }
}

/// Accepts a path at which something is. `exists` says whether something is.
pub fn validate_file_exists(path: &str, exists: bool) -> (r: Result<(), ValidationError>)
    ensures
        r is Ok <==> exists,
        !exists ==> (r matches Err(ValidationError::FileNotFound(at)) && at@ == path@),
{
    if !exists {
        return Err(ValidationError::FileNotFound(String::from_str(path)));
    }
    Ok(())
}

/// Accepts a path at which a directory is. `exists` says whether anything is
/// at the path, and `is_directory` whether it is a directory. That nothing
/// is there is the first thing reported.
pub fn validate_directory_exists(path: &str, exists: bool, is_directory: bool) -> (r: Result<
    (),
    ValidationError,
>)
    ensures
        r is Ok <==> exists && is_directory,
        !exists ==> (r matches Err(ValidationError::DirectoryNotFound(at)) && at@ == path@),
        exists && !is_directory ==> (r matches Err(ValidationError::NotADirectory(at)) && at@
            == path@),
{
    if !exists {
        return Err(ValidationError::DirectoryNotFound(String::from_str(path)));
    }
    if !is_directory {
        return Err(ValidationError::NotADirectory(String::from_str(path)));
    }
    Ok(())
}

/// Accepts a path that has no extension, or whose extension is, in lower
/// case, among `allowed_extensions`.
pub fn validate_file_extension(path: &str, allowed_extensions: &[String]) -> (r: Result<
    (),
    ValidationError,
>)
    ensures
        match lower_extension(path@) {
            Some(extension) => if texts(allowed_extensions@).contains(extension) {
                r is Ok
            } else {
                r matches Err(ValidationError::ExtensionNotAllowed(refused)) && refused@
                    == extension
            },
            None => r is Ok,
        },
{
    match get_file_extension(path) {
        Some(extension) => {
            if lists_text(allowed_extensions, &extension) {
                Ok(())
            } else {
                Err(ValidationError::ExtensionNotAllowed(extension))
            }
        },
        None => Ok(()),
    }
}

} // verus!
