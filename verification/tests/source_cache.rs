use imo::types::{SourceCodeCache, StringInterner, StringId};

fn lines(text: &[&str]) -> Vec<String> {
    text.iter().map(|s| s.to_string()).collect()
}

#[test]
fn cached_lines_read_back() {
    let mut cache = SourceCodeCache::new();
    assert_eq!(cache.get_line_entry("/a.rs", 1), None);
    let file = lines(&["fn main() {", "    let x = 1;", "}"]);
    assert_eq!(cache.create_and_get_line_entry("/a.rs", &file, 2), Some("    let x = 1;"));
    assert_eq!(cache.get_line_entry("/a.rs", 1), Some("fn main() {"));
    // Line 0 reads as line 1; the last line has no end offset.
    assert_eq!(cache.get_line_entry("/a.rs", 0), Some("fn main() {"));
    assert_eq!(cache.get_line_entry("/a.rs", 3), None);
    assert_eq!(cache.get_line_entry("/b.rs", 1), None);
    // Characters wider than a byte keep their lines apart.
    let wide = lines(&["é", "ü", "."]);
    assert_eq!(cache.create_and_get_line_entry("/w.rs", &wide, 2), Some("ü"));
}

#[test]
fn interning_gives_one_id_per_path() {
    let mut t = StringInterner::new();
    let a = t.get_or_intern("/src/main.rs");
    let b = t.get_or_intern("/src/lib.rs");
    let again = t.get_or_intern("/src/main.rs");
    assert_eq!(a, again);
    assert_ne!(a, b);
    assert_eq!(a, StringId(0));
    assert_eq!(t.len(), 2);
    assert!(t.contains("/src/lib.rs"));
    assert_eq!(t.get_str(b), Some("/src/lib.rs"));
    assert_eq!(t.get_string(a), Some("/src/main.rs".to_string()));
    assert_eq!(t.get_str(StringId(9)), None);
}
