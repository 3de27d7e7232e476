use app_server::error::AppError;
use app_server::files::{
    format_size, join_path, list_entries, safe_path, sort_newest_first, validate_filename, extension_of,
    file_info, modified_text, DirEntry, FileInfo, MAX_UTC_SECS, MIN_UTC_SECS,
};

#[test]
fn format_size_bytes() {
    assert_eq!(format_size(0), "0 B");
    assert_eq!(format_size(512), "512 B");
    assert_eq!(format_size(1024), "1 KB");
    assert_eq!(format_size(1536), "2 KB");
    assert_eq!(format_size(1_048_576), "1 MB");
    assert_eq!(format_size(1_073_741_824), "1 GB");
}

#[test]
fn validate_filename_rejects_traversal() {
    assert!(validate_filename("../etc/passwd").is_err());
    assert!(validate_filename("foo/../../bar").is_err());
    assert!(validate_filename("/absolute/path").is_err());
    assert!(validate_filename("file\0name").is_err());
}

#[test]
fn validate_filename_rejects_forbidden_chars() {
    for c in ['/', '\\', '?', '%', '*', ':', '|', '"', '<', '>', ';', '='] {
        let name = format!("scan{c}.jpg");
        assert!(validate_filename(&name).is_err(), "Should reject '{c}'");
    }
}

#[test]
fn validate_filename_accepts_valid_names() {
    assert!(validate_filename("scan_20220115_211429.jpg").is_ok());
    assert!(validate_filename("my scan (1).tif").is_ok());
    assert!(validate_filename("photo.jpeg-xl").is_ok());
}

#[test]
fn safe_path_stays_within_dir() {
    let dir = "/data/scans";
    assert!(safe_path(dir, "scan.jpg").is_ok());
    assert!(safe_path(dir, "../etc/passwd").is_err());
}

#[test]
fn validate_filename_messages_follow_check_order() {
    assert_eq!(
        validate_filename(""),
        Err(AppError::BadRequest("Filename cannot be empty".to_string()))
    );
    assert_eq!(
        validate_filename("/a..b"),
        Err(AppError::BadRequest("Parent paths disallowed".to_string()))
    );
    assert_eq!(
        validate_filename("/abs"),
        Err(AppError::BadRequest("Absolute paths disallowed".to_string()))
    );
    assert_eq!(
        validate_filename("a\0/b"),
        Err(AppError::BadRequest("Null bytes disallowed".to_string()))
    );
    assert_eq!(
        validate_filename("a=b"),
        Err(AppError::BadRequest("Name cannot contain illegal characters".to_string()))
    );
    assert_eq!(validate_filename("."), Ok(()));
}

#[test]
fn safe_path_joins_with_one_separator() {
    assert_eq!(safe_path("/data/scans", "scan.jpg"), Ok("/data/scans/scan.jpg".to_string()));
    assert_eq!(safe_path("/data/scans/", "scan.jpg"), Ok("/data/scans/scan.jpg".to_string()));
    assert_eq!(safe_path("", "scan.jpg"), Ok("scan.jpg".to_string()));
    assert_eq!(join_path("/data", "/etc/passwd"), "/etc/passwd");
}

#[test]
fn format_size_rounds_half_up_and_switches_units() {
    assert_eq!(format_size(1023), "1023 B");
    assert_eq!(format_size(1535), "1 KB");
    assert_eq!(format_size(1_048_064), "1024 KB");
    assert_eq!(format_size(1_099_511_627_776), "1 TB");
    assert_eq!(format_size(1_649_267_441_664), "2 TB");
    assert_eq!(format_size(u64::MAX), "16777216 TB");
    // matches the value the size has as a double
    let b: u64 = (1u64 << 60) + (1u64 << 39) - 1;
    assert_eq!(format_size(b), format!("{} TB", ((b as f64) / 1099511627776.0).round() as u64));
}

#[test]
fn extension_follows_the_last_dot() {
    assert_eq!(extension_of("scan.jpg"), ".jpg");
    assert_eq!(extension_of("archive.tar.gz"), ".gz");
    assert_eq!(extension_of(".bashrc"), "");
    assert_eq!(extension_of("noext"), "");
    assert_eq!(extension_of("trailing."), ".");
    assert_eq!(extension_of("/data/scans/scan.tif"), ".tif");
    assert_eq!(extension_of("."), "");
}

fn info(name: &str, modified: &str) -> FileInfo {
    file_info(
        format!("/d/{name}"),
        name.to_string(),
        String::new(),
        "/d".to_string(),
        1,
        modified.to_string(),
    )
}

#[test]
fn sort_puts_newest_first_and_keeps_ties_in_order() {
    let files = vec![
        info("a", "2024-01-01T00:00:00+00:00"),
        info("b", "2024-03-01T00:00:00+00:00"),
        info("c", "2024-01-01T00:00:00+00:00"),
        info("d", "2024-02-01T00:00:00+00:00"),
    ];
    let sorted = sort_newest_first(files);
    let names: Vec<&str> = sorted.iter().map(|f| f.name.as_str()).collect();
    assert_eq!(names, vec!["b", "d", "a", "c"]);
}

#[test]
fn listing_keeps_regular_files_only() {
    let entries = vec![
        DirEntry {
            name: "old.jpg".to_string(),
            is_file: true,
            size: 2048,
            modified_secs: 0,
            modified_nanos: 0,
        },
        DirEntry {
            name: "sub".to_string(),
            is_file: false,
            size: 0,
            modified_secs: 10,
            modified_nanos: 0,
        },
        DirEntry {
            name: "new.tif".to_string(),
            is_file: true,
            size: 5,
            modified_secs: 86_400,
            modified_nanos: 500_000_000,
        },
    ];
    let list = list_entries("/d", &entries);
    assert_eq!(list.len(), 2);
    assert_eq!(list[0].name, "new.tif");
    assert_eq!(list[0].extension, ".tif");
    assert_eq!(list[0].last_modified, "1970-01-02T00:00:00.500+00:00");
    assert_eq!(list[0].size_string, "5 B");
    assert_eq!(list[1].name, "old.jpg");
    assert_eq!(list[1].fullname, "/d/old.jpg");
    assert_eq!(list[1].path, "/d");
    assert_eq!(list[1].size_string, "2 KB");
    assert_eq!(list[1].last_modified, "1970-01-01T00:00:00+00:00");
    assert!(!list[1].is_directory);
}

fn chrono_text(secs: i64, nanos: u32) -> String {
    chrono::DateTime::<chrono::Utc>::from_timestamp(secs, nanos).unwrap().to_rfc3339()
}

#[test]
fn modified_text_covers_chrono_range() {
    assert_eq!(modified_text(0, 0), "1970-01-01T00:00:00+00:00");
    assert_eq!(modified_text(8_100_000_000_000, 0), chrono_text(8_100_000_000_000, 0));
    assert_eq!(modified_text(-8_100_000_000_000, 0), chrono_text(-8_100_000_000_000, 0));
    assert_eq!(modified_text(MAX_UTC_SECS, 999_999_999), chrono_text(MAX_UTC_SECS, 999_999_999));
    assert_eq!(modified_text(MIN_UTC_SECS, 0), chrono_text(MIN_UTC_SECS, 0));
    assert!(chrono::DateTime::<chrono::Utc>::from_timestamp(MAX_UTC_SECS + 1, 0).is_none());
    assert!(chrono::DateTime::<chrono::Utc>::from_timestamp(MIN_UTC_SECS - 1, 0).is_none());
    assert_eq!(
        chrono::DateTime::<chrono::Utc>::MAX_UTC.timestamp(),
        MAX_UTC_SECS
    );
    assert_eq!(
        chrono::DateTime::<chrono::Utc>::MIN_UTC.timestamp(),
        MIN_UTC_SECS
    );
}

#[test]
fn listing_writes_far_future_times() {
    let entries = vec![DirEntry {
        name: "far.png".to_string(),
        is_file: true,
        size: 1,
        modified_secs: 8_200_000_000_000,
        modified_nanos: 0,
    }];
    let list = list_entries("/d", &entries);
    assert_eq!(list.len(), 1);
    assert_eq!(list[0].last_modified, chrono_text(8_200_000_000_000, 0));
}

#[test]
fn listed_fullname_joins_directory_and_name() {
    let entries = vec![
        DirEntry {
            name: "a.png".to_string(),
            is_file: true,
            size: 3,
            modified_secs: 5,
            modified_nanos: 0,
        },
        DirEntry {
            name: "b.png".to_string(),
            is_file: true,
            size: 4,
            modified_secs: 5,
            modified_nanos: 0,
        },
    ];
    let list = list_entries("/data/", &entries);
    assert_eq!(list.len(), 2);
    assert_eq!(list[0].fullname, "/data/a.png");
    assert_eq!(list[1].fullname, "/data/b.png");
    assert_eq!(list[0].path, "/data/");
    let list = list_entries("out", &entries);
    assert_eq!(list[0].fullname, "out/a.png");
}
