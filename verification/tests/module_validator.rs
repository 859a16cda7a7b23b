use std::io::Write;

use apexsu::module_validator::{
    assess_module_archive, has_path_traversal, link_leaves_module, validate_id, validate_module_prop,
    validate_module_zip_bytes, ArchiveEntry, IdError, IssueSeverity, ValidationIssue,
    ValidationReport, MAX_SINGLE_FILE_SIZE,
};
use apexsu::zip_archive::ArchiveReadError;

fn prop_issues(content: &str) -> (Vec<ValidationIssue>, Option<String>) {
    let mut issues = Vec::new();
    let mut module_id = None;
    validate_module_prop(content, &mut issues, &mut module_id);
    (issues, module_id)
}

fn checks(issues: &[ValidationIssue]) -> Vec<String> {
    issues.iter().map(|i| i.check.clone()).collect()
}

fn build_zip(entries: &[(&str, &[u8])]) -> Vec<u8> {
    let mut writer = zip::ZipWriter::new(std::io::Cursor::new(Vec::new()));
    for (name, data) in entries {
        writer
            .start_file(*name, zip::write::SimpleFileOptions::default())
            .unwrap();
        writer.write_all(data).unwrap();
    }
    writer.finish().unwrap().into_inner()
}

#[test]
fn test_validate_id_valid() {
    assert!(validate_id("com.example.module").is_ok());
    assert!(validate_id("my_module-v2").is_ok());
    assert!(validate_id("aB").is_ok());
}

#[test]
fn test_validate_id_invalid() {
    assert!(validate_id("").is_err());
    assert!(validate_id("1bad").is_err());
    assert!(validate_id("-bad").is_err());
    assert!(validate_id("a").is_err()); // too short (needs 2+ chars)
    assert!(validate_id(&"a".repeat(65)).is_err());
}

#[test]
fn test_path_traversal_detection() {
    assert!(has_path_traversal("../etc/passwd"));
    assert!(has_path_traversal("foo/../bar"));
    assert!(has_path_traversal("/absolute/path"));
    assert!(has_path_traversal("..\\windows\\path"));
    assert!(!has_path_traversal("normal/path/file.txt"));
    assert!(!has_path_traversal("module.prop"));
}

#[test]
fn test_validate_module_prop_missing_fields() {
    let mut issues = Vec::new();
    let mut module_id = None;
    validate_module_prop("", &mut issues, &mut module_id);
    assert_eq!(issues.len(), 4);
    assert!(issues.iter().all(|i| i.severity == IssueSeverity::Error));
}

#[test]
fn test_validate_module_prop_valid() {
    let content = "id=com.example\nname=Test\nversion=1.0\nversionCode=1\nauthor=Test\ndescription=A test module";
    let mut issues = Vec::new();
    let mut module_id = None;
    validate_module_prop(content, &mut issues, &mut module_id);
    assert!(issues.is_empty(), "Unexpected issues: {issues:?}");
    assert_eq!(module_id, Some("com.example".to_string()));
}

#[test]
fn test_validate_module_prop_bad_version_code() {
    let content = "id=com.example\nname=Test\nversion=1.0\nversionCode=not_a_number";
    let mut issues = Vec::new();
    let mut module_id = None;
    validate_module_prop(content, &mut issues, &mut module_id);
    assert!(issues.iter().any(|i| i.check == "version_code_format"));
}

#[test]
fn test_validate_module_prop_bad_id() {
    let content = "id=123bad\nname=Test\nversion=1.0\nversionCode=1";
    let mut issues = Vec::new();
    let mut module_id = None;
    validate_module_prop(content, &mut issues, &mut module_id);
    assert!(issues.iter().any(|i| i.check == "module_id_format"));
}

#[test]
fn validate_id_reports_each_error() {
    assert_eq!(validate_id(""), Err(IdError::Empty));
    assert_eq!(validate_id(&"a".repeat(65)), Err(IdError::TooLong(65)));
    assert_eq!(validate_id(&"a".repeat(64)), Ok(()));
    assert_eq!(validate_id("1bad"), Err(IdError::InvalidFormat));
    assert_eq!(validate_id("ab/c"), Err(IdError::InvalidFormat));
    assert_eq!(validate_id("ab\n"), Err(IdError::InvalidFormat));
    assert_eq!(validate_id("aé"), Err(IdError::InvalidFormat));
    assert_eq!(validate_id("a.b_c-D9"), Ok(()));
}

#[test]
fn validate_id_counts_bytes() {
    // 33 two-byte characters: 66 bytes, over the limit before the pattern.
    assert_eq!(validate_id(&"é".repeat(33)), Err(IdError::TooLong(66)));
}

#[test]
fn path_traversal_edges() {
    assert!(has_path_traversal("\\absolute"));
    assert!(has_path_traversal("a/..\\b"));
    assert!(!has_path_traversal(".."));
    assert!(!has_path_traversal("a/.."));
    assert!(!has_path_traversal("..a/b"));
    assert!(!has_path_traversal(""));
    assert!(has_path_traversal("x/y/../"));
}

#[test]
fn prop_lines_are_trimmed_and_comments_skipped() {
    let content = "  # comment\r\n id = com.example \r\nname=Test\r\n\nversion=1.0\nversionCode=+7\n";
    let (issues, module_id) = prop_issues(content);
    assert!(issues.is_empty(), "Unexpected issues: {issues:?}");
    assert_eq!(module_id, Some("com.example".to_string()));
}

#[test]
fn prop_last_occurrence_wins() {
    let content = "id=first_id\nid=second_id\nname=Test\nversion=1\nversionCode=1";
    let (issues, module_id) = prop_issues(content);
    assert!(issues.is_empty());
    assert_eq!(module_id, Some("second_id".to_string()));
}

#[test]
fn prop_empty_fields_and_messages() {
    let content = "id=\nname=\nversion=1\nversionCode=1";
    let (issues, module_id) = prop_issues(content);
    assert_eq!(
        checks(&issues),
        vec!["empty_field_id", "empty_field_name", "module_id_format"]
    );
    assert_eq!(issues[0].message, "Required field 'id' is empty in module.prop");
    assert_eq!(issues[0].suggestion, "Set a value for 'id' in module.prop");
    assert_eq!(module_id, Some(String::new()));
}

#[test]
fn prop_missing_field_messages() {
    let (issues, module_id) = prop_issues("# nothing here\nno equals sign");
    assert_eq!(
        checks(&issues),
        vec![
            "required_field_id",
            "required_field_name",
            "required_field_version",
            "required_field_versionCode"
        ]
    );
    assert_eq!(issues[3].message, "Required field 'versionCode' missing from module.prop");
    assert_eq!(issues[3].suggestion, "Add 'versionCode=<value>' to module.prop");
    assert_eq!(module_id, None);
}

#[test]
fn prop_long_id_and_bad_version_code_messages() {
    let id = "a".repeat(70);
    let content = format!("id={id}\nname=N\nversion=1\nversionCode=-3");
    let (issues, _) = prop_issues(&content);
    assert_eq!(checks(&issues), vec!["module_id_length", "version_code_format"]);
    assert_eq!(issues[0].message, "Module ID too long: 70 chars (max: 64)");
    assert_eq!(issues[1].message, "versionCode is not a valid integer: '-3'");
    assert_eq!(issues[1].severity, IssueSeverity::Error);
}

#[test]
fn prop_version_code_range() {
    let ok = "id=ab\nname=N\nversion=1\nversionCode=18446744073709551615";
    assert!(prop_issues(ok).0.is_empty());
    let over = "id=ab\nname=N\nversion=1\nversionCode=18446744073709551616";
    assert_eq!(checks(&prop_issues(over).0), vec!["version_code_format"]);
    let plus = "id=ab\nname=N\nversion=1\nversionCode=+";
    assert_eq!(checks(&prop_issues(plus).0), vec!["version_code_format"]);
}

#[test]
fn prop_length_warnings() {
    let content = format!(
        "id=ab\nname={}\nversion={}\nversionCode=1\ndescription={}\nauthor={}",
        "n".repeat(257),
        "v".repeat(65),
        "d".repeat(1024),
        "a".repeat(300)
    );
    let (issues, _) = prop_issues(&content);
    assert_eq!(checks(&issues), vec!["name_length", "version_length", "author_length"]);
    assert!(issues.iter().all(|i| i.severity == IssueSeverity::Warning));
    assert_eq!(
        issues[0].message,
        "Field 'name' is very long: 257 chars (recommended max: 256)"
    );
    assert_eq!(issues[2].suggestion, "Consider shortening 'author'");
}

#[test]
fn prop_issues_are_appended() {
    let mut issues = vec![ValidationIssue {
        check: "earlier".into(),
        severity: IssueSeverity::Warning,
        message: String::new(),
        suggestion: String::new(),
    }];
    let mut module_id = Some("kept".to_string());
    validate_module_prop("name=x", &mut issues, &mut module_id);
    assert_eq!(issues[0].check, "earlier");
    assert_eq!(issues.len(), 4);
    assert_eq!(module_id, Some("kept".to_string()));
}

fn entry(name: &str, size: u64) -> ArchiveEntry {
    ArchiveEntry { name: name.to_string(), size, link_target: None }
}

#[test]
fn assess_archive_without_prop() {
    let entries = vec![entry("../evil", 1), entry("big.bin", MAX_SINGLE_FILE_SIZE + 1)];
    let report = assess_module_archive(&entries, None);
    assert_eq!(
        checks(&report.issues),
        vec!["path_traversal", "file_size", "module_prop_missing"]
    );
    assert_eq!(
        report.issues[0].message,
        "Entry contains path traversal or absolute path: '../evil'"
    );
    assert_eq!(
        report.issues[1].message,
        "Entry 'big.bin' is too large: 104857601 bytes (max: 104857600 bytes)"
    );
    assert_eq!(report.total_size, MAX_SINGLE_FILE_SIZE + 2);
    assert_eq!(report.entry_count, 2);
    assert_eq!(report.module_id, None);
    assert!(!report.is_valid());
}

#[test]
fn assess_archive_total_size_saturates() {
    let entries = vec![entry("a", u64::MAX), entry("b", 5)];
    let report = assess_module_archive(&entries, Some("id=ab\nname=n\nversion=1\nversionCode=1"));
    assert_eq!(report.total_size, u64::MAX);
    assert_eq!(checks(&report.issues), vec!["file_size", "total_size"]);
    assert_eq!(
        report.issues[1].message,
        "Total uncompressed size too large: 18446744073709551615 bytes (max: 524288000 bytes)"
    );
    assert_eq!(report.module_id, Some("ab".to_string()));
}

#[test]
fn assess_archive_valid() {
    let entries = vec![entry("module.prop", 40), entry("system/bin/tool", 100)];
    let report = assess_module_archive(&entries, Some("id=ab\nname=n\nversion=1\nversionCode=1"));
    assert!(report.issues.is_empty());
    assert!(report.is_valid());
    assert_eq!(report.total_size, 140);
}

#[test]
fn report_validity_ignores_warnings() {
    let report = ValidationReport {
        issues: vec![ValidationIssue {
            check: "name_length".into(),
            severity: IssueSeverity::Warning,
            message: String::new(),
            suggestion: String::new(),
        }],
        module_id: None,
        total_size: 0,
        entry_count: 0,
    };
    assert!(report.is_valid());
}

#[test]
fn zip_bytes_not_an_archive() {
    let report = validate_module_zip_bytes(b"definitely not a zip").unwrap();
    assert_eq!(checks(&report.issues), vec!["zip_structure"]);
    let zip_error = zip::ZipArchive::new(std::io::Cursor::new(&b"definitely not a zip"[..]))
        .err()
        .expect("not an archive");
    assert_eq!(report.issues[0].message, format!("Not a valid ZIP archive: {zip_error}"));
    assert_eq!(report.entry_count, 0);
    assert!(!report.is_valid());
}

#[test]
fn zip_bytes_valid_module() {
    let prop = b"id=com.example\nname=Test\nversion=1.0\nversionCode=3\n";
    let data = build_zip(&[("module.prop", prop), ("system/bin/tool", b"#!/bin/sh\n")]);
    let report = validate_module_zip_bytes(&data).unwrap();
    assert!(report.issues.is_empty(), "{:?}", report.issues);
    assert_eq!(report.module_id, Some("com.example".to_string()));
    assert_eq!(report.entry_count, 2);
    assert_eq!(report.total_size, (prop.len() + 10) as u64);
    assert!(report.is_valid());
}

#[test]
fn zip_bytes_traversal_and_missing_prop() {
    let data = build_zip(&[("../../etc/passwd", b"root"), ("sub/module.prop", b"id=ab")]);
    let report = validate_module_zip_bytes(&data).unwrap();
    assert_eq!(checks(&report.issues), vec!["path_traversal", "module_prop_missing"]);
    assert_eq!(report.total_size, 9);
    assert!(!report.is_valid());
}

#[test]
fn zip_bytes_bad_prop_text() {
    let data = build_zip(&[("module.prop", &[0xff, 0xfe, 0x00])]);
    match validate_module_zip_bytes(&data) {
        Err(ArchiveReadError::ModulePropContentUnreadable(_)) => {}
        other => panic!("unexpected result: {other:?}"),
    }
}

#[test]
fn assess_archive_validity_follows_prop() {
    let entries = vec![entry("module.prop", 40)];
    let long_description = format!(
        "id=ab\nname=n\nversion=1\nversionCode=1\ndescription={}",
        "d".repeat(1025)
    );
    let warned = assess_module_archive(&entries, Some(long_description.as_str()));
    assert_eq!(checks(&warned.issues), vec!["description_length"]);
    assert!(warned.is_valid());

    let empty_name = assess_module_archive(&entries, Some("id=ab\nname=\nversion=1\nversionCode=1"));
    assert_eq!(checks(&empty_name.issues), vec!["empty_field_name"]);
    assert!(!empty_name.is_valid());

    let bad_code = assess_module_archive(&entries, Some("id=ab\nname=n\nversion=1\nversionCode=-1"));
    assert_eq!(checks(&bad_code.issues), vec!["version_code_format"]);
    assert!(!bad_code.is_valid());
}

fn set_compression_method(data: &mut [u8], method: u16) {
    let m = method.to_le_bytes();
    data[8..10].copy_from_slice(&m);
    let central = data
        .windows(4)
        .position(|w| w == [0x50, 0x4b, 0x01, 0x02])
        .expect("central directory header");
    data[central + 10..central + 12].copy_from_slice(&m);
}

#[test]
fn zip_bytes_entry_that_cannot_open() {
    let mut data = build_zip(&[("module.prop", b"id=ab\nname=n\nversion=1\nversionCode=1")]);
    set_compression_method(&mut data, 12);
    match validate_module_zip_bytes(&data) {
        Err(ArchiveReadError::EntryUnreadable(0, reason)) => assert!(!reason.is_empty()),
        other => panic!("unexpected result: {other:?}"),
    }
}

fn link(name: &str, target: &[u8]) -> ArchiveEntry {
    ArchiveEntry {
        name: name.to_string(),
        size: target.len() as u64,
        link_target: Some(target.to_vec()),
    }
}

#[test]
fn link_targets_leaving_the_module() {
    // Absolute targets always leave.
    assert!(link_leaves_module("system/bin/su", b"/system/bin/sh"));
    assert!(link_leaves_module("system/bin/su", b"\\windows"));
    // Relative targets are resolved from the link's directory.
    assert!(!link_leaves_module("system/bin/su", b"../lib/x"));
    assert!(!link_leaves_module("system/bin/su", b"../../x"));
    assert!(link_leaves_module("system/bin/su", b"../../../x"));
    assert!(link_leaves_module("system/bin/su", b"x/../../../../y"));
    assert!(!link_leaves_module("sub/lnk", b".."));
    assert!(link_leaves_module("lnk", b".."));
    assert!(link_leaves_module("lnk", b"../x"));
    assert!(!link_leaves_module("lnk", b"./x/./.."));
    assert!(!link_leaves_module("lnk", b"..."));
    assert!(!link_leaves_module("lnk", b"..hidden/file"));
    assert!(!link_leaves_module("system/bin/tool", b"tool"));
    assert!(!link_leaves_module("lnk", b""));
    // Bytes that are not UTF-8 are judged as they are.
    assert!(link_leaves_module("lnk", b"../\xff"));
    assert!(!link_leaves_module("lnk", b"\xff/x"));
}

#[test]
fn assess_archive_symlinks() {
    let prop = Some("id=ab\nname=n\nversion=1\nversionCode=1");
    let entries = vec![
        entry("module.prop", 40),
        link("system/bin/ok", b"tool"),
        link("system/bin/lib", b"../lib/libx.so"),
    ];
    let report = assess_module_archive(&entries, prop);
    assert!(report.issues.is_empty());
    assert!(report.is_valid());

    let entries = vec![entry("module.prop", 40), link("system/bin/evil", b"/data/adb/ksud")];
    let report = assess_module_archive(&entries, prop);
    assert_eq!(checks(&report.issues), vec!["symlink_escape"]);
    assert_eq!(
        report.issues[0].message,
        "Symlink 'system/bin/evil' points outside the module directory: '/data/adb/ksud'"
    );
    assert_eq!(report.issues[0].severity, IssueSeverity::Error);
    assert!(!report.is_valid());

    let entries = vec![
        entry("module.prop", 40),
        link("raw", b"/\xffetc"),
        entry("../after", 1),
    ];
    let report = assess_module_archive(&entries, prop);
    assert_eq!(checks(&report.issues), vec!["symlink_escape", "path_traversal"]);
    assert_eq!(
        report.issues[0].message,
        "Symlink 'raw' points outside the module directory: '/\u{fffd}etc'"
    );
    assert!(!report.is_valid());
}

#[test]
fn zip_bytes_symlink_leaving_the_module() {
    let prop = b"id=com.example\nname=Test\nversion=1.0\nversionCode=3\n";
    let mut writer = zip::ZipWriter::new(std::io::Cursor::new(Vec::new()));
    writer.start_file("module.prop", zip::write::SimpleFileOptions::default()).unwrap();
    writer.write_all(prop).unwrap();
    writer
        .add_symlink("system/bin/su", "../../../../system/bin/sh", zip::write::SimpleFileOptions::default())
        .unwrap();
    writer
        .add_symlink("system/bin/ok", "tool", zip::write::SimpleFileOptions::default())
        .unwrap();
    let data = writer.finish().unwrap().into_inner();
    let report = validate_module_zip_bytes(&data).unwrap();
    assert_eq!(checks(&report.issues), vec!["symlink_escape"]);
    assert_eq!(
        report.issues[0].message,
        "Symlink 'system/bin/su' points outside the module directory: '../../../../system/bin/sh'"
    );
    assert_eq!(report.entry_count, 3);
    assert!(!report.is_valid());
}
