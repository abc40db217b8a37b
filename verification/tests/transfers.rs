use ssherald::selection::Selection;
use ssherald::sftp::{
    assemble_chunks, begin_download, begin_upload, build_listing, entry_path, file_display_name,
    format_size, format_timestamp, split_chunks, BrowserState, RawDirEntry, SftpRequest,
    SftpResponse, TransferState, CHUNK_SIZE,
};
use ssherald::text::{parse_u16, u64_to_dec};

fn raw(name: &str, is_dir: bool) -> RawDirEntry {
    RawDirEntry { name: name.to_string(), is_dir, size: 10, modified: Some(5) }
}

#[test]
fn listing_excludes_dots_and_joins_paths() {
    let entries = build_listing(
        "/",
        vec![raw(".", true), raw("..", true), raw("beta", false), raw("alpha", false), raw("zdir", true)],
    );
    let names: Vec<&str> = entries.iter().map(|e| e.name.as_str()).collect();
    assert_eq!(names, vec!["zdir", "alpha", "beta"]);
    for e in &entries {
        assert_ne!(e.name, ".");
        assert_ne!(e.name, "..");
        assert_eq!(e.path, format!("/{}", e.name));
    }
}

#[test]
fn listing_sorts_directories_first_then_by_name() {
    let entries = build_listing(
        "/srv/data",
        vec![raw("b", false), raw("a", false), raw("d", true), raw("c", true)],
    );
    let order: Vec<(String, bool)> =
        entries.iter().map(|e| (e.name.clone(), e.is_dir)).collect();
    assert_eq!(
        order,
        vec![
            ("c".to_string(), true),
            ("d".to_string(), true),
            ("a".to_string(), false),
            ("b".to_string(), false),
        ]
    );
    assert_eq!(entries[0].path, "/srv/data/c");
}

#[test]
fn path_joining_never_doubles_the_separator() {
    assert_eq!(entry_path("/", "etc"), "/etc");
    assert_eq!(entry_path("/home/", "u"), "/home/u");
    assert_eq!(entry_path("/home", "u"), "/home/u");
    assert_eq!(entry_path("///", "u"), "/u");
}

#[test]
fn display_names_are_the_last_component() {
    assert_eq!(file_display_name("/a/b/c.txt"), "c.txt");
    assert_eq!(file_display_name("plain"), "plain");
    assert_eq!(file_display_name("/a/b/"), "b");
    assert_eq!(file_display_name("/"), "");
}

#[test]
fn chunk_round_trip_small_and_large() {
    let small: Vec<u8> = (0..10u8).collect();
    let chunks = split_chunks(&small);
    assert_eq!(chunks.len(), 1);
    assert_eq!(assemble_chunks(&chunks), small);

    let large: Vec<u8> = (0..(CHUNK_SIZE + 12345)).map(|i| (i % 251) as u8).collect();
    let chunks = split_chunks(&large);
    assert_eq!(chunks.len(), 2);
    assert_eq!(chunks[0].len(), CHUNK_SIZE);
    assert_eq!(chunks[1].len(), 12345);
    assert_eq!(assemble_chunks(&chunks), large);

    let empty: Vec<u8> = Vec::new();
    assert!(split_chunks(&empty).is_empty());
}

#[test]
fn transfer_progress_reaches_total() {
    let data: Vec<u8> = (0..(CHUNK_SIZE + 100)).map(|i| (i % 7) as u8).collect();
    let (req, mut st) = begin_upload("/tmp/big.bin", "/remote/big.bin", data.len() as u64);
    match req {
        SftpRequest::Upload { local, remote } => {
            assert_eq!(local, "/tmp/big.bin");
            assert_eq!(remote, "/remote/big.bin");
        }
        _ => panic!("expected an upload request"),
    }
    assert_eq!(st.name, "big.bin");
    assert!(st.is_upload);
    let chunks = split_chunks(&data);
    let mut moved: u64 = 0;
    for c in &chunks {
        moved += c.len() as u64;
        st.record_transferred(moved);
    }
    st.mark_done();
    assert_eq!(st.transferred, st.total);
    assert!(st.done && !st.failed);
}

#[test]
fn download_total_is_discovered_lazily() {
    let (req, mut st) = begin_download("/remote/file", "/tmp/file", 0);
    match req {
        SftpRequest::Download { remote, local } => {
            assert_eq!(remote, "/remote/file");
            assert_eq!(local, "/tmp/file");
        }
        _ => panic!("expected a download request"),
    }
    assert!(!st.is_upload);
    st.discover_total(4096);
    assert_eq!(st.total, 4096);
    // a known total is kept
    st.discover_total(9999);
    assert_eq!(st.total, 4096);
    st.mark_failed();
    assert!(st.failed);
}

#[test]
fn browser_refreshes_after_mutations() {
    let mut b = BrowserState::new();
    assert_eq!(b.current_path, "/");
    assert!(b.loading);
    let req = b.begin_navigate("/etc");
    match req {
        SftpRequest::ListDir(p) => assert_eq!(p, "/etc"),
        _ => panic!(),
    }
    let refresh = b.apply_response(SftpResponse::DirListing("/etc".to_string(), Vec::new()));
    assert!(refresh.is_none());
    assert!(!b.loading);
    assert_eq!(b.current_path, "/etc");
    let refresh = b.apply_response(SftpResponse::Success("OK: mkdir /etc/x".to_string()));
    match refresh {
        Some(SftpRequest::ListDir(p)) => assert_eq!(p, "/etc"),
        _ => panic!("a completed mutation must relist the current directory"),
    }
    let refresh = b.apply_response(SftpResponse::Error("boom".to_string()));
    assert!(refresh.is_none());
    assert_eq!(b.error, Some("boom".to_string()));
}

#[test]
fn size_formatting() {
    assert_eq!(format_size(0), "0B");
    assert_eq!(format_size(1023), "1023B");
    assert_eq!(format_size(1024), "1.0K");
    assert_eq!(format_size(1536), "1.5K");
    assert_eq!(format_size(10 * 1024), "10.0K");
    assert_eq!(format_size(1048576), "1.0M");
    assert_eq!(format_size(5 * 1048576 + 524288), "5.5M");
    assert_eq!(format_size(1073741824), "1.00G");
    assert_eq!(format_size(5 * 1073741824 + 536870912), "5.50G");
}

#[test]
fn timestamp_formatting() {
    assert_eq!(format_timestamp(0), "1970-01-01");
    // four hundred days in: year 1971, day 35 of the flat calendar
    assert_eq!(format_timestamp(400 * 86400), "1971-02-06");
}

#[test]
fn decimal_rendering_and_port_parsing() {
    assert_eq!(u64_to_dec(0), "0");
    assert_eq!(u64_to_dec(90210), "90210");
    assert_eq!(u64_to_dec(u64::MAX), u64::MAX.to_string());
    assert_eq!(parse_u16("0"), Some(0));
    assert_eq!(parse_u16("8080"), Some(8080));
    assert_eq!(parse_u16("65535"), Some(65535));
    assert_eq!(parse_u16("65536"), None);
    assert_eq!(parse_u16("+22"), Some(22));
    assert_eq!(parse_u16("007"), Some(7));
    assert_eq!(parse_u16(""), None);
    assert_eq!(parse_u16("+"), None);
    assert_eq!(parse_u16("12a"), None);
    assert_eq!(parse_u16("999999999999999999999"), None);
}

#[test]
fn selection_normalization_and_membership() {
    let sel = Selection { start_row: 3, start_col: 5, end_row: 1, end_col: 2 };
    let (start, end) = sel.normalized();
    assert_eq!(start, (1, 2));
    assert_eq!(end, (3, 5));
    assert!(!sel.is_empty());
    assert!(sel.contains(1, 2));
    assert!(sel.contains(2, 0));
    assert!(sel.contains(3, 5));
    assert!(!sel.contains(3, 6));
    assert!(!sel.contains(0, 9));
    let point = Selection { start_row: 2, start_col: 2, end_row: 2, end_col: 2 };
    assert!(point.is_empty());
}

#[test]
fn selection_ranges_cover_each_row() {
    let sel = Selection { start_row: 1, start_col: 4, end_row: 3, end_col: 2 };
    let ranges = sel.selection_ranges(10);
    assert_eq!(ranges, vec![(1, 4, 9), (2, 0, 9), (3, 0, 2)]);
    let single = Selection { start_row: 2, start_col: 6, end_row: 2, end_col: 3 };
    assert_eq!(single.selection_ranges(10), vec![(2, 3, 6)]);
}
