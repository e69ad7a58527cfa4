//! Settings of the upload pipeline, of the workflow engine and of logging.
//! Directories and files are named by their paths, as text.

use crate::text::texts;
use vstd::prelude::*;
use vstd::string::StringExecFns;

verus! {

#[derive(Clone, Debug, PartialEq, Eq)]
pub struct UploadConfig {
    pub upload_dir: String,
    /// Bytes.
    pub max_file_size: usize,
    /// Lower-case, without the dot.
    pub allowed_extensions: Vec<String>,
    pub compression_enabled: bool,
    pub backup_enabled: bool,
    pub backup_dir: String,
}

#[derive(Clone, Debug, PartialEq, Eq)]
pub struct WorkflowConfig {
    pub workflow_dir: String,
    /// How many tasks may run at once.
    pub max_concurrent_workflows: usize,
    /// Seconds allowed to one attempt of a step that sets no timeout.
    pub timeout_seconds: u64,
    /// Retries allowed to a step that sets no retry count.
    pub retry_attempts: u32,
}

#[derive(Clone, Debug, PartialEq, Eq)]
pub struct LoggingConfig {
    pub log_level: String,
    pub log_file: Option<String>,
    pub enable_console: bool,
}

/// The extensions that uploads may have unless the settings say otherwise.
pub open spec fn default_extensions() -> Seq<Seq<char>> {
    seq!["txt"@, "pdf"@, "doc"@, "docx"@, "zip"@, "tar"@, "gz"@]
}

impl Default for UploadConfig {
    fn default() -> (config: Self)
        ensures
            config.upload_dir@ == "./uploads"@,
            config.max_file_size == 100 * 1024 * 1024,
            texts(config.allowed_extensions@) == default_extensions(),
            config.compression_enabled,
            config.backup_enabled,
            config.backup_dir@ == "./backups"@,
    {
        let mut allowed_extensions: Vec<String> = Vec::new();
        allowed_extensions.push(String::from_str("txt"));
        allowed_extensions.push(String::from_str("pdf"));
        allowed_extensions.push(String::from_str("doc"));
        allowed_extensions.push(String::from_str("docx"));
        allowed_extensions.push(String::from_str("zip"));
        allowed_extensions.push(String::from_str("tar"));
        allowed_extensions.push(String::from_str("gz"));
        assert(texts(allowed_extensions@) == default_extensions());
        Self {
            upload_dir: String::from_str("./uploads"),
            max_file_size: 100 * 1024 * 1024,
            allowed_extensions,
            compression_enabled: true,
            backup_enabled: true,
            backup_dir: String::from_str("./backups"),
        }
    }
}

impl Default for WorkflowConfig {
    fn default() -> (config: Self)
        ensures
            config.workflow_dir@ == "./workflows"@,
            config.max_concurrent_workflows == 4,
            config.timeout_seconds == 3600,
            config.retry_attempts == 3,
    {
        Self {
            workflow_dir: String::from_str("./workflows"),
            max_concurrent_workflows: 4,
            timeout_seconds: 3600,
            retry_attempts: 3,
        }
    }
}

impl Default for LoggingConfig {
    fn default() -> (config: Self)
        ensures
            config.log_level@ == "info"@,
            config.log_file is None,
            config.enable_console,
    {
        Self { log_level: String::from_str("info"), log_file: None, enable_console: true }
    }
}

} // verus!
