//! What the upload pipeline decides. Reading, copying and compressing the
//! files is the caller's part.

use crate::config::UploadConfig;
use crate::text::{same_text, text, texts};
use crate::time::{is_more_than, more_than, Timestamp};
use crate::utils::file_utils::{get_file_extension, lower_extension};
use crate::utils::validation::{validate_file_extension, validate_file_size, ValidationError};
use vstd::prelude::*;
use vstd::string::StringExecFns;

verus! {

/// Bytes above which an upload counts as large.
pub const LARGE_FILE_BYTES: u64 = 10 * 1024 * 1024;

/// Seconds after which an upload is due for the archive: thirty days.
pub const ARCHIVE_AFTER_SECONDS: i64 = 30 * 86_400;

/// Where the processing of an upload stands.
#[derive(Clone, Copy, Debug, PartialEq, Eq, Structural)]
pub enum ProcessingStatus {
    Pending,
    Processing,
    Completed,
    Failed,
    Archived,
}

/// The media type that goes with an extension in lower case.
pub open spec fn media_type(extension: Option<Seq<char>>) -> Seq<char> {
    match extension {
        Some(e) => if e == "txt"@ {
            "text/plain"@
        } else if e == "pdf"@ {
            "application/pdf"@
        } else if e == "doc"@ || e == "docx"@ {
            "application/msword"@
        } else if e == "zip"@ {
            "application/zip"@
        } else if e == "tar"@ {
            "application/x-tar"@
        } else if e == "gz"@ {
            "application/gzip"@
        } else if e == "json"@ {
            "application/json"@
        } else if e == "yaml"@ || e == "yml"@ {
            "application/x-yaml"@
        } else {
            "application/octet-stream"@
        },
        None => "application/octet-stream"@,
    }
}

/// The tags of an upload: its extension, if it has one; that it is large,
/// if it is; and the day of the upload.
pub open spec fn upload_tags(extension: Option<Seq<char>>, file_size: u64, day: Seq<char>) -> Seq<
    Seq<char>,
> {
    let by_extension = match extension {
        Some(e) => seq!["ext:"@ + e],
        None => Seq::<Seq<char>>::empty(),
    };
    let by_size = if file_size > LARGE_FILE_BYTES {
        seq!["large_file"@]
    } else {
        Seq::<Seq<char>>::empty()
    };
    by_extension + by_size + seq!["uploaded:"@ + day]
}

/// Whether an upload of `uploaded` is due for the archive at `now`.
pub open spec fn due_for_archive(uploaded: Timestamp, now: Timestamp) -> bool {
    is_more_than(now, uploaded, ARCHIVE_AFTER_SECONDS)
}

#[derive(Debug)]
pub struct UploadManager {
    pub config: UploadConfig,
}

impl UploadManager {
    pub fn new(config: UploadConfig) -> (manager: Self)
        ensures
            manager.config == config,
    {
        Self { config }
    }

    /// Accepts an upload of `size` bytes at `path` where the size is within
    /// the limit and the extension, if the path has one, is allowed. The
    /// size is looked at first.
    pub fn validate_upload(&self, path: &str, size: u64) -> (r: Result<(), ValidationError>)
        ensures
            r is Ok <==> size <= self.config.max_file_size && (lower_extension(path@) matches Some(
                e,
            ) ==> texts(self.config.allowed_extensions@).contains(e)),
            size > self.config.max_file_size ==> r == Err::<(), ValidationError>(
                ValidationError::FileTooLarge { size, max_size: self.config.max_file_size as u64 },
            ),
            size <= self.config.max_file_size && r is Err ==> (r matches Err(
                ValidationError::ExtensionNotAllowed(refused),
            ) && Some(refused@) == lower_extension(path@)),
    {
        match validate_file_size(size, self.config.max_file_size as u64) {
            Err(e) => {
                return Err(e);
            },
            Ok(()) => {},
        }
        validate_file_extension(path, self.config.allowed_extensions.as_slice())
    }

    /// The media type of the file at `path`, by its extension.
    pub fn detect_mime_type(&self, path: &str) -> (mime: String)
        ensures
            mime@ == media_type(lower_extension(path@)),
    {
        let found = match get_file_extension(path) {
            Some(extension) => {
                let e = extension.as_str();
                if same_text(e, "txt") {
                    "text/plain"
                } else if same_text(e, "pdf") {
                    "application/pdf"
                } else if same_text(e, "doc") || same_text(e, "docx") {
                    "application/msword"
                } else if same_text(e, "zip") {
                    "application/zip"
                } else if same_text(e, "tar") {
                    "application/x-tar"
                } else if same_text(e, "gz") {
                    "application/gzip"
                } else if same_text(e, "json") {
                    "application/json"
                } else if same_text(e, "yaml") || same_text(e, "yml") {
                    "application/x-yaml"
                } else {
                    "application/octet-stream"
                }
            },
            None => "application/octet-stream",
        };
        String::from_str(found)
    }

    /// The tags of an upload whose processed file is at `processed_path`,
    /// which has `file_size` bytes and was uploaded on `day`.
    pub fn generate_tags(&self, processed_path: &str, file_size: u64, day: &str) -> (tags: Vec<
        String,
    >)
        ensures
            texts(tags@) == upload_tags(lower_extension(processed_path@), file_size, day@),
    {
        let mut tags: Vec<String> = Vec::new();
        match get_file_extension(processed_path) {
            Some(extension) => {
                let mut tag = String::from_str("ext:");
                tag.append(extension.as_str());
                tags.push(tag);
            },
            None => {},
        }
        if file_size > LARGE_FILE_BYTES {
            tags.push(String::from_str("large_file"));
        }
        let mut tag = String::from_str("uploaded:");
        tag.append(day);
        tags.push(tag);
        assert(texts(tags@) == upload_tags(lower_extension(processed_path@), file_size, day@));
        tags
    }

    /// Whether an upload of `uploaded` is due for the archive at `now`:
    /// whether more than thirty days lie between the two.
    pub fn should_archive(&self, uploaded: Timestamp, now: Timestamp) -> (due: bool)
        ensures
            due == due_for_archive(uploaded, now),
    {
        more_than(now, uploaded, ARCHIVE_AFTER_SECONDS)
    }
}

} // verus!
