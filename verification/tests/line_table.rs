use imo::line_table::LineProgramRow;
use imo::line_table::row_path;
use imo::session::DebugSession;
use imo::sys::CacheSetupError;

fn row(path: &str, address: u64, line: u64, end_sequence: bool) -> LineProgramRow {
    LineProgramRow { path: path.to_string(), address, line, is_stmt: true, end_sequence }
}

#[test]
fn rows_become_ranges_breakpoint_addresses_and_line_order() {
    let mut s = DebugSession::from_pid(1);
    let rows = vec![
        row("/src/main.rs", 0x100, 3, false),
        row("/src/main.rs", 0x108, 4, false),
        row("/src/main.rs", 0x110, 3, false),
        row("/src/main.rs", 0x110, 0, false),
        row("/src/util.rs", 0x120, 9, false),
        row("/src/util.rs", 0x130, 9, true),
    ];
    s.update_session_cache(&rows);
    let ranges: Vec<(u64, u64, u32)> = s.line_row.iter().map(|r| (r.start_address, r.end_address, r.location.line)).collect();
    assert_eq!(ranges, vec![(0x100, 0x108, 3), (0x108, 0x110, 4), (0x110, 0x120, 3), (0x120, 0x130, 9)]);
    // Line 3 of main.rs is indexed once (its first address), line 9 of util.rs once.
    let three: Vec<u64> = s.line_index.get(&3).unwrap().iter().map(|t| t.relative_address).collect();
    assert_eq!(three, vec![0x100]);
    let nine: Vec<u64> = s.line_index.get(&9).unwrap().iter().map(|t| t.relative_address).collect();
    assert_eq!(nine, vec![0x120]);
    assert!(s.line_index.get(&0).is_none());
    let main = s.interner.get_str(imo::types::StringId(0)).unwrap();
    assert_eq!(main, "/src/main.rs");
    assert_eq!(s.file_declaration_order.get(&0).unwrap(), &vec![3, 4]);
    assert_eq!(s.file_declaration_order.get(&1).unwrap(), &vec![9]);
}

#[test]
fn rows_below_the_text_section_are_dropped_and_the_rest_sorted() {
    let mut s = DebugSession::from_pid(1);
    s.metadata.text_address = 0x100;
    let rows = vec![
        row("/a.rs", 0x200, 5, false),
        row("/a.rs", 0x210, 6, true),
        row("/a.rs", 0x80, 1, false),
        row("/a.rs", 0x90, 2, true),
        row("/a.rs", 0x100, 3, false),
        row("/a.rs", 0x108, 4, true),
    ];
    s.update_session_cache(&rows);
    s.set_up_line_row();
    let starts: Vec<u64> = s.line_row.iter().map(|r| r.start_address).collect();
    assert_eq!(starts, vec![0x100, 0x200]);
    assert_eq!(s.find_line_range(0x104).unwrap().location.line, 3);
    assert!(s.find_line_range(0x108).is_none());
    assert_eq!(s.get_location_with_address(0x20f).unwrap().line, 5);
}

#[test]
fn memory_map_sets_the_load_address_and_regions() {
    let mut s = DebugSession::from_pid(1);
    let lines = vec![
        "5555-6666 r-xp 00000000 08:01 1 /bin/prog".to_string(),
        "garbage".to_string(),
        "7000-8000 rw-p 00000000 00:00 0".to_string(),
    ];
    assert_eq!(s.update_process_addresses(&lines), Ok(()));
    assert_eq!(s.base_address, 0x5555);
    let regions = s.process_map.regions();
    assert_eq!(regions.len(), 2);
    assert!(regions[0].is_executable && regions[0].is_readable && !regions[0].is_writable);
    assert_eq!((regions[1].start_address, regions[1].end_address), (0x7000, 0x8000));
    assert!(regions[1].is_writable);
}

#[test]
fn memory_map_rejects_addresses_that_are_not_hexadecimal() {
    let mut s = DebugSession::from_pid(1);
    let lines = vec!["12g4-2000 r-xp".to_string()];
    assert_eq!(s.update_process_addresses(&lines), Err(CacheSetupError::AddressRange));
    let lines = vec!["1000-zz r-xp".to_string()];
    assert_eq!(s.update_process_addresses(&lines), Err(CacheSetupError::AddressRange));
    assert_eq!(s.base_address, 0x1000);
}

#[test]
fn row_paths_join_like_a_path_buffer() {
    assert_eq!(row_path("/home/me/proj", 1, Some("src"), "main.rs"), "/home/me/proj/src/main.rs");
    assert_eq!(row_path("/home/me/proj", 0, Some("ignored"), "src/main.rs"), "/home/me/proj/src/main.rs");
    assert_eq!(row_path("/x", 2, Some("/rustc/abc/library"), "core/src/lib.rs"), "/rustc/abc/library/core/src/lib.rs");
    assert_eq!(row_path("", 1, Some("src"), "a.rs"), "src/a.rs");
    assert_eq!(row_path("/a/", 0, None, "b.rs"), "/a/b.rs");
    assert_eq!(row_path("/a", 3, Some("b"), "/abs/c.rs"), "/abs/c.rs");
}
