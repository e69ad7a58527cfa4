use rust_automation_orchestrator::config::UploadConfig;
use rust_automation_orchestrator::text::{chars_of, copy_text, lists_text, replace_text, same_text};
use rust_automation_orchestrator::time::Timestamp;
use rust_automation_orchestrator::upload::{ProcessingStatus, UploadManager};
use rust_automation_orchestrator::utils::{
    get_file_extension, sanitize_filename, validate_directory_exists, validate_file_exists,
    validate_file_extension, validate_file_size, ValidationError,
};

fn manager() -> UploadManager {
    UploadManager::new(UploadConfig::default())
}

fn at(secs: i64) -> Timestamp {
    Timestamp { secs, nanos: 0 }
}

#[test]
fn the_extension_comes_in_lower_case() {
    assert_eq!(get_file_extension("report.PDF"), Some("pdf".to_string()));
    assert_eq!(get_file_extension("/tmp/a.b/archive.tar.GZ"), Some("gz".to_string()));
    assert_eq!(get_file_extension("notes.txt"), Some("txt".to_string()));
}

#[test]
fn a_name_without_dot_has_no_extension() {
    assert_eq!(get_file_extension("README"), None);
    assert_eq!(get_file_extension(".hidden"), None);
    assert_eq!(get_file_extension("/tmp/dir.d/"), Some("d".to_string()));
    assert_eq!(get_file_extension(""), None);
}

#[test]
fn a_sanitized_name_keeps_letters_digits_and_three_signs() {
    assert_eq!(sanitize_filename("report-2024_v1.txt"), "report-2024_v1.txt");
    assert_eq!(sanitize_filename("my file (1).txt"), "my_file__1_.txt");
    assert_eq!(sanitize_filename("../etc/passwd"), ".._etc_passwd");
    assert_eq!(sanitize_filename("été.txt"), "été.txt");
    assert_eq!(sanitize_filename("a\tb\nc"), "a_b_c");
    assert_eq!(sanitize_filename(""), "");
}

#[test]
fn an_allowed_extension_passes() {
    let allowed = vec!["txt".to_string(), "pdf".to_string()];
    assert_eq!(validate_file_extension("a.txt", &allowed), Ok(()));
    assert_eq!(validate_file_extension("a.PDF", &allowed), Ok(()));
    assert_eq!(validate_file_extension("no_extension", &allowed), Ok(()));
}

#[test]
fn another_extension_is_refused_by_name() {
    let allowed = vec!["txt".to_string(), "pdf".to_string()];
    assert_eq!(
        validate_file_extension("a.EXE", &allowed),
        Err(ValidationError::ExtensionNotAllowed("exe".to_string()))
    );
    assert_eq!(
        validate_file_extension("a.txt", &[]),
        Err(ValidationError::ExtensionNotAllowed("txt".to_string()))
    );
}

#[test]
fn a_file_may_be_as_large_as_the_limit() {
    assert_eq!(validate_file_size(10, 10), Ok(()));
    assert_eq!(validate_file_size(0, 0), Ok(()));
    assert_eq!(
        validate_file_size(11, 10),
        Err(ValidationError::FileTooLarge { size: 11, max_size: 10 })
    );
}

#[test]
fn an_upload_is_checked_for_size_then_extension() {
    let manager = manager();
    let limit = 100 * 1024 * 1024;
    assert_eq!(manager.validate_upload("a.txt", limit), Ok(()));
    assert_eq!(manager.validate_upload("no_extension", 1), Ok(()));
    assert_eq!(
        manager.validate_upload("a.exe", limit + 1),
        Err(ValidationError::FileTooLarge { size: limit + 1, max_size: limit })
    );
    assert_eq!(
        manager.validate_upload("a.exe", limit),
        Err(ValidationError::ExtensionNotAllowed("exe".to_string()))
    );
}

#[test]
fn the_media_type_follows_the_extension() {
    let manager = manager();
    assert_eq!(manager.detect_mime_type("a.txt"), "text/plain");
    assert_eq!(manager.detect_mime_type("a.PDF"), "application/pdf");
    assert_eq!(manager.detect_mime_type("a.doc"), "application/msword");
    assert_eq!(manager.detect_mime_type("a.docx"), "application/msword");
    assert_eq!(manager.detect_mime_type("a.zip"), "application/zip");
    assert_eq!(manager.detect_mime_type("a.tar"), "application/x-tar");
    assert_eq!(manager.detect_mime_type("a.tar.gz"), "application/gzip");
    assert_eq!(manager.detect_mime_type("a.json"), "application/json");
    assert_eq!(manager.detect_mime_type("a.yaml"), "application/x-yaml");
    assert_eq!(manager.detect_mime_type("a.yml"), "application/x-yaml");
    assert_eq!(manager.detect_mime_type("a.bin"), "application/octet-stream");
    assert_eq!(manager.detect_mime_type("a"), "application/octet-stream");
}

#[test]
fn the_tags_tell_extension_size_and_day() {
    let manager = manager();
    assert_eq!(
        manager.generate_tags("/uploads/a.GZ", 10 * 1024 * 1024 + 1, "2024-05-17"),
        vec!["ext:gz", "large_file", "uploaded:2024-05-17"]
    );
    assert_eq!(
        manager.generate_tags("/uploads/a.txt", 10 * 1024 * 1024, "2024-05-17"),
        vec!["ext:txt", "uploaded:2024-05-17"]
    );
    assert_eq!(manager.generate_tags("/uploads/a", 0, "2024-05-17"), vec!["uploaded:2024-05-17"]);
}

#[test]
fn an_upload_is_archived_after_thirty_days() {
    let manager = manager();
    let month = 30 * 86_400;
    assert!(!manager.should_archive(at(1000), at(1000)));
    assert!(!manager.should_archive(at(1000), at(1000 + month)));
    assert!(manager.should_archive(at(1000), at(1001 + month)));
    assert!(!manager.should_archive(at(1001 + month), at(1000)));
}

#[test]
fn processing_statuses_are_told_apart() {
    assert_ne!(ProcessingStatus::Pending, ProcessingStatus::Processing);
    assert_ne!(ProcessingStatus::Completed, ProcessingStatus::Archived);
    assert_eq!(ProcessingStatus::Failed, ProcessingStatus::Failed);
}

#[test]
fn texts_are_compared_and_copied() {
    assert!(same_text("abc", "abc"));
    assert!(!same_text("abc", "abd"));
    assert!(!same_text("abc", "ab"));
    assert_eq!(copy_text(&Some("x".to_string())), Some("x".to_string()));
    assert_eq!(copy_text(&None), None);
    let list = vec!["a".to_string(), "b".to_string()];
    assert!(lists_text(&list, &"b".to_string()));
    assert!(!lists_text(&list, &"c".to_string()));
}

#[test]
fn every_occurrence_gives_way() {
    assert_eq!(replace_text("a-b-c", "-", "+"), "a+b+c");
    assert_eq!(replace_text("$x and $x", "$x", "1"), "1 and 1");
    assert_eq!(replace_text("abc", "abc", ""), "");
    assert_eq!(replace_text("abc", "d", "e"), "abc");
    assert_eq!(replace_text("", "d", "e"), "");
    assert_eq!(replace_text("ab", "abc", "x"), "ab");
}

#[test]
fn occurrences_are_taken_from_the_left() {
    assert_eq!(replace_text("aaa", "aa", "b"), "ba");
    assert_eq!(replace_text("aaaa", "aa", "b"), "bb");
    assert_eq!(replace_text("ababa", "aba", "x"), "xba");
    assert_eq!(replace_text("$flag2", "$flag", "true"), "true2");
}

#[test]
fn a_replacement_is_not_searched_again() {
    assert_eq!(replace_text("ab", "a", "aa"), "aab");
    assert_eq!(replace_text("xx", "x", "xx"), "xxxx");
}

#[test]
fn an_empty_pattern_occurs_nowhere() {
    assert_eq!(replace_text("abc", "", "x"), "abc");
}

#[test]
fn characters_beyond_ascii_are_whole() {
    assert_eq!(replace_text("héllo wörld", "ö", "o"), "héllo world");
    assert_eq!(chars_of("aé$"), vec!['a', 'é', '$']);
    assert_eq!(chars_of(""), Vec::<char>::new());
}

#[test]
fn a_file_that_is_there_passes() {
    assert_eq!(validate_file_exists("/tmp/a.txt", true), Ok(()));
    assert_eq!(
        validate_file_exists("/tmp/a.txt", false),
        Err(ValidationError::FileNotFound("/tmp/a.txt".to_string()))
    );
}

#[test]
fn a_directory_has_to_be_there_and_be_one() {
    assert_eq!(validate_directory_exists("/tmp/d", true, true), Ok(()));
    assert_eq!(
        validate_directory_exists("/tmp/d", false, false),
        Err(ValidationError::DirectoryNotFound("/tmp/d".to_string()))
    );
    assert_eq!(
        validate_directory_exists("/tmp/d", false, true),
        Err(ValidationError::DirectoryNotFound("/tmp/d".to_string()))
    );
    assert_eq!(
        validate_directory_exists("/tmp/d", true, false),
        Err(ValidationError::NotADirectory("/tmp/d".to_string()))
    );
}
