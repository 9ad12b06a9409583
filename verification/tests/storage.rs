use meetily::summary::context::storage::{
    build_stored_filename, read_text_capped, sanitize_basename, stored_filename, StorageError,
    MAX_ATTACHMENT_BYTES,
};

#[test]
fn sanitize_replaces_path_separators() {
    assert_eq!(sanitize_basename("../etc/passwd"), "etc_passwd");
    assert_eq!(sanitize_basename("a\\b.txt"), "a_b.txt");
}

#[test]
fn sanitize_replaces_control_chars() {
    assert_eq!(sanitize_basename("a\nb\tc.txt"), "a_b_c.txt");
}

#[test]
fn sanitize_caps_at_64_chars() {
    let long = "a".repeat(100);
    let out = sanitize_basename(&long);
    assert_eq!(out.chars().count(), 64);
}

#[test]
fn sanitize_handles_empty() {
    assert_eq!(sanitize_basename(""), "attachment");
    assert_eq!(sanitize_basename("..."), "attachment");
}

#[test]
fn build_stored_filename_prefixes_uuid() {
    let name = build_stored_filename("notes.md");
    assert!(name.ends_with("_notes.md"));
    let parts: Vec<&str> = name.splitn(2, '_').collect();
    assert_eq!(parts.len(), 2);
    assert_eq!(parts[1], "notes.md");
    assert_eq!(parts[0].len(), 8);
    assert!(parts[0].chars().all(|c| c.is_ascii_hexdigit() && !c.is_ascii_uppercase()));
    assert_ne!(name, build_stored_filename("notes.md"));
}

#[test]
fn read_text_capped_reads_small_file() {
    let r = read_text_capped(b"hello\n").unwrap();
    assert_eq!(r.content, "hello\n");
    assert!(!r.truncated);
    assert_eq!(r.size_bytes, 6);
}

#[test]
fn read_text_capped_rejects_binary() {
    let err = read_text_capped(&[0x00, 0x01, 0x02]).unwrap_err();
    assert!(matches!(err, StorageError::NotText));
}

#[test]
fn read_text_capped_rejects_invalid_utf8() {
    // 0xC0 0x28 is invalid UTF-8 (and no NUL byte).
    let err = read_text_capped(&[0xC0, 0x28]).unwrap_err();
    assert!(matches!(err, StorageError::NotText));
}

#[test]
fn read_text_capped_truncates_oversized_at_newline() {
    let mut big = String::new();
    for _ in 0..30000 {
        big.push_str("line of about ten chars\n"); // 24 bytes each
    }
    assert!(big.len() > MAX_ATTACHMENT_BYTES);
    let r = read_text_capped(big.as_bytes()).unwrap();
    assert!(r.truncated);
    assert!(r.content.ends_with('\n'));
    assert!(r.content.len() <= MAX_ATTACHMENT_BYTES);
    assert_eq!(r.content.len(), 262_128);
    assert_eq!(r.size_bytes, 720_000);
    assert!(big.starts_with(&r.content));
}

#[test]
fn truncation_without_newline_keeps_whole_characters() {
    let big = "é".repeat(MAX_ATTACHMENT_BYTES);
    let r = read_text_capped(big.as_bytes()).unwrap();
    assert_eq!(r.content.len(), MAX_ATTACHMENT_BYTES);
    let odd = format!("x{}", big);
    let r = read_text_capped(odd.as_bytes()).unwrap();
    assert_eq!(r.content.len(), MAX_ATTACHMENT_BYTES - 1);
    assert!(r.truncated);
    let exact = "a".repeat(MAX_ATTACHMENT_BYTES);
    let r = read_text_capped(exact.as_bytes()).unwrap();
    assert!(!r.truncated);
    assert_eq!(r.content, exact);
}

#[test]
fn sanitized_names_are_safe_and_stable() {
    let names = [
        "../../x",
        "./a/b",
        "..\\..\\c",
        ".hidden",
        "/etc/passwd",
        "_..x",
        "a/../b",
        "../",
        "\u{7f}\u{9f}",
        "....//x",
        "résumé.md",
    ];
    for name in names {
        let once = sanitize_basename(name);
        assert!(!once.is_empty() && !once.starts_with('.'));
        assert!(!once.contains('/') && !once.contains('\\'));
        assert!(!once.chars().any(|c| c.is_control()));
        assert_eq!(sanitize_basename(&once), once);
    }
    assert_eq!(sanitize_basename("../../x"), "x");
    assert_eq!(sanitize_basename(".hidden"), "hidden");
    assert_eq!(sanitize_basename("/etc/passwd"), "_etc_passwd");
    assert_eq!(sanitize_basename("a/../b"), "a_.._b");
    assert_eq!(sanitize_basename("résumé.md"), "résumé.md");
}

#[test]
fn stored_names_take_the_first_group() {
    assert_eq!(
        stored_filename("0123abcd-0000-4000-8000-000000000000", "../a b.txt"),
        "0123abcd_a b.txt"
    );
    assert_eq!(stored_filename("nohyphen", "x"), "nohyphen_x");
}

#[test]
fn storage_errors_speak() {
    assert_eq!(
        StorageError::NotReadable("a.txt: gone".to_string()).message(),
        "file not found or unreadable: a.txt: gone"
    );
    assert_eq!(StorageError::NotText.message(), "file is not valid UTF-8 text");
    assert_eq!(StorageError::MeetingFolderMissing.message(), "meeting folder is not initialized");
    assert_eq!(StorageError::Io("disk full".to_string()).message(), "io: disk full");
}
