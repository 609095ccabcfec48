use ftp_browser::listing::{parse_list_entry, parse_list_entries, normalize_line_name};

#[test]
fn dos_directory_line() {
    let e = parse_list_entry("01-04-23  09:15AM  <DIR>  Documents").unwrap();
    assert_eq!(e.name, "Documents");
    assert!(e.is_dir);
    assert_eq!(e.size, None);
    assert_eq!(e.modified.as_deref(), Some("01-04-23 09:15AM"));
    assert_eq!(e.raw.as_deref(), Some("01-04-23  09:15AM  <DIR>  Documents"));
}

#[test]
fn dos_file_line() {
    let e = parse_list_entry("01-04-23 09:15AM 4096 notes of today.txt").unwrap();
    assert_eq!(e.name, "notes of today.txt");
    assert!(!e.is_dir);
    assert_eq!(e.size, Some(4096));
    assert_eq!(e.modified.as_deref(), Some("01-04-23 09:15AM"));
}

#[test]
fn dos_marker_is_case_insensitive() {
    let e = parse_list_entry("01-04-23 09:15AM <dir> stuff").unwrap();
    assert!(e.is_dir);
    assert_eq!(e.size, None);
}

#[test]
fn dos_non_numeric_size_is_none() {
    let e = parse_list_entry("01-04-23 09:15AM big file.bin").unwrap();
    assert!(!e.is_dir);
    assert_eq!(e.size, None);
    assert_eq!(e.name, "file.bin");
}

#[test]
fn unix_directory_line() {
    let e = parse_list_entry("drwxr-xr-x 2 user group 4096 Jan 01 00:00 photos").unwrap();
    assert_eq!(e.name, "photos");
    assert!(e.is_dir);
    assert_eq!(e.size, None);
    assert_eq!(e.modified.as_deref(), Some("Jan 01 00:00"));
}

#[test]
fn unix_file_line() {
    let e = parse_list_entry("-rw-r--r-- 1 user group 123 Jan 02 10:30 my notes.txt").unwrap();
    assert_eq!(e.name, "my notes.txt");
    assert!(!e.is_dir);
    assert_eq!(e.size, Some(123));
    assert_eq!(e.modified.as_deref(), Some("Jan 02 10:30"));
}

#[test]
fn unix_marker_decides_directory() {
    let d = parse_list_entry("dr-xr-xr-x 2 u g 0 Jan 01 00:00 a").unwrap();
    let f = parse_list_entry("lrwxrwxrwx 1 u g 0 Jan 01 00:00 a").unwrap();
    assert!(d.is_dir);
    assert!(!f.is_dir);
}

#[test]
fn dot_entries_are_dropped() {
    assert!(parse_list_entry("drwxr-xr-x 2 user group 4096 Jan 01 00:00 .").is_none());
    assert!(parse_list_entry("drwxr-xr-x 2 user group 4096 Jan 01 00:00 ..").is_none());
    assert!(parse_list_entry("01-04-23 09:15AM <DIR> .").is_none());
    // bare dot lines reach the fallback branch and are dropped there too
    assert!(parse_list_entry(".").is_none());
    assert!(parse_list_entry("..").is_none());
    assert!(parse_list_entry("  ..  ").is_none());
}

#[test]
fn blank_lines_are_dropped() {
    assert!(parse_list_entry("").is_none());
    assert!(parse_list_entry("   \t  ").is_none());
}

#[test]
fn unknown_shape_degrades_to_raw_name() {
    let e = parse_list_entry("  strange listing line  ").unwrap();
    assert_eq!(e.name, "strange listing line");
    assert!(!e.is_dir);
    assert_eq!(e.size, None);
    assert_eq!(e.modified, None);
    assert_eq!(e.raw.as_deref(), Some("strange listing line"));
}

#[test]
fn dos_heuristic_runs_before_unix() {
    // Nine tokens, but the first two look like a DOS date and time: the DOS
    // heuristic decides.
    let e = parse_list_entry("01-04-23 09:15 100 a b c d e f").unwrap();
    assert!(!e.is_dir);
    assert_eq!(e.size, Some(100));
    assert_eq!(e.name, "a b c d e f");
    assert_eq!(e.modified.as_deref(), Some("01-04-23 09:15"));
}

#[test]
fn whole_listing_keeps_order_and_drops_blanks() {
    let lines = vec![
        "drwxr-xr-x 2 user group 4096 Jan 01 00:00 photos".to_string(),
        "".to_string(),
        "drwxr-xr-x 2 user group 4096 Jan 01 00:00 .".to_string(),
        "-rw-r--r-- 1 user group 9 Jan 01 00:00 a.txt".to_string(),
    ];
    let entries = parse_list_entries(lines);
    assert_eq!(entries.len(), 2);
    assert_eq!(entries[0].name, "photos");
    assert_eq!(entries[1].name, "a.txt");
}

#[test]
fn normalize_line_name_trims_and_drops_dots() {
    assert_eq!(normalize_line_name(" name ".to_string()), "name");
    assert_eq!(normalize_line_name(" . ".to_string()), "");
    assert_eq!(normalize_line_name("..".to_string()), "");
    assert_eq!(normalize_line_name(".hidden".to_string()), ".hidden");
}

#[test]
fn oversized_size_token_is_none() {
    let e = parse_list_entry("-rw-r--r-- 1 u g 99999999999999999999999 Jan 01 00:00 big").unwrap();
    assert_eq!(e.size, None);
    assert_eq!(e.name, "big");
}
