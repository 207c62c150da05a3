use dragabyte::filter::{CompiledFilter, FilterError, ScanFilters};

fn strings(v: &[&str]) -> Vec<String> {
    v.iter().map(|s| s.to_string()).collect()
}

fn compiled(f: ScanFilters) -> CompiledFilter {
    f.compile().expect("criteria should compile")
}

#[test]
fn empty_filter_accepts_everything() {
    let f = compiled(ScanFilters::none());
    assert!(f.include_file("/a/b/c.txt", 0));
    assert!(f.include_file("/a/b/noext", 123456));
}

#[test]
fn min_size_exceeding_max_is_invalid_range() {
    let mut raw = ScanFilters::none();
    raw.min_size_bytes = Some(10);
    raw.max_size_bytes = Some(5);
    assert_eq!(raw.compile().err(), Some(FilterError::InvalidRange));
}

#[test]
fn equal_min_and_max_is_valid() {
    let mut raw = ScanFilters::none();
    raw.min_size_bytes = Some(7);
    raw.max_size_bytes = Some(7);
    let f = compiled(raw);
    assert!(f.include_file("/x", 7));
    assert!(!f.include_file("/x", 6));
    assert!(!f.include_file("/x", 8));
}

#[test]
fn bad_regex_is_invalid_pattern() {
    let mut raw = ScanFilters::none();
    raw.include_regex = Some("[".to_string());
    assert_eq!(raw.compile().err(), Some(FilterError::InvalidPattern));
    let mut raw2 = ScanFilters::none();
    raw2.exclude_regex = Some("(unclosed".to_string());
    assert_eq!(raw2.compile().err(), Some(FilterError::InvalidPattern));
}

#[test]
fn size_bounds_reject_outside() {
    let mut raw = ScanFilters::none();
    raw.min_size_bytes = Some(100);
    raw.max_size_bytes = Some(200);
    let f = compiled(raw);
    assert!(!f.include_file("/data/file.bin", 99));
    assert!(f.include_file("/data/file.bin", 100));
    assert!(f.include_file("/data/file.bin", 200));
    assert!(!f.include_file("/data/file.bin", 201));
}

#[test]
fn extension_include_is_normalized() {
    let mut raw = ScanFilters::none();
    raw.include_extensions = strings(&[" .TXT ", "..LOG"]);
    let f = compiled(raw);
    assert!(f.include_file("/a/readme.txt", 1));
    assert!(f.include_file("/a/UPPER.TXT", 1));
    assert!(f.include_file("/a/server.log", 1));
    assert!(!f.include_file("/a/image.png", 1));
    assert!(!f.include_file("/a/noextension", 1));
}

#[test]
fn name_substring_include_is_case_insensitive() {
    let mut raw = ScanFilters::none();
    raw.include_names = strings(&["  RePort  "]);
    let f = compiled(raw);
    assert!(f.include_file("/a/Annual-REPORT-2024.pdf", 1));
    assert!(!f.include_file("/a/summary.pdf", 1));
}

#[test]
fn path_substring_exclude_applies() {
    let mut raw = ScanFilters::none();
    raw.exclude_paths = strings(&["node_modules"]);
    let f = compiled(raw);
    assert!(!f.include_file("/proj/node_modules/dep/index.js", 1));
    assert!(f.include_file("/proj/src/index.js", 1));
}

#[test]
fn include_regex_matches_lowered_path() {
    let mut raw = ScanFilters::none();
    raw.include_regex = Some(r"\.rs$".to_string());
    let f = compiled(raw);
    assert!(f.include_file("/src/MAIN.RS", 1));
    assert!(!f.include_file("/src/main.rs.bak", 1));
}

#[test]
fn exclude_takes_precedence_over_include() {
    // The file matches the include extension and the exclude name: excluded.
    let mut raw = ScanFilters::none();
    raw.include_extensions = strings(&["txt"]);
    raw.exclude_names = strings(&["secret"]);
    let f = compiled(raw);
    assert!(!f.include_file("/docs/secret-notes.txt", 1));
    assert!(f.include_file("/docs/public-notes.txt", 1));
}

#[test]
fn empty_criteria_entries_are_dropped() {
    let mut raw = ScanFilters::none();
    raw.include_names = strings(&["   ", ""]);
    let f = compiled(raw);
    // All include entries clean to empty, so no include criterion remains.
    assert!(f.include_file("/whatever/file", 1));
}

#[test]
fn skip_dir_never_skips_root() {
    let mut raw = ScanFilters::none();
    raw.exclude_names = strings(&["root"]);
    let f = compiled(raw);
    assert!(!f.skip_dir("/my-root", "/my-root"));
    assert!(f.skip_dir("/my-root", "/my-root/rooted"));
}

#[test]
fn skip_dir_ignores_extension_excludes() {
    let mut raw = ScanFilters::none();
    raw.exclude_extensions = strings(&["txt"]);
    let f = compiled(raw);
    assert!(!f.skip_dir("/r", "/r/folder.txt"));
}

#[test]
fn skip_dir_matches_path_name_and_regex() {
    let mut raw = ScanFilters::none();
    raw.exclude_paths = strings(&["target"]);
    let f = compiled(raw);
    assert!(f.skip_dir("/r", "/r/target/debug"));
    let mut raw2 = ScanFilters::none();
    raw2.exclude_regex = Some("cache".to_string());
    let f2 = compiled(raw2);
    assert!(f2.skip_dir("/r", "/r/MyCache"));
    assert!(!f2.skip_dir("/r", "/r/data"));
}

#[test]
fn text_helpers_split_paths() {
    assert_eq!(dragabyte::text::base_name("/a/b/c.txt"), "c.txt");
    assert_eq!(dragabyte::text::base_name("plain"), "plain");
    assert_eq!(dragabyte::text::parent_dir("/a/b/c.txt"), Some("/a/b".to_string()));
    assert_eq!(dragabyte::text::parent_dir("/a"), Some("/".to_string()));
    assert_eq!(dragabyte::text::parent_dir("alone"), None);
    assert_eq!(dragabyte::text::extension_of("archive.tar.gz"), Some("gz".to_string()));
    assert_eq!(dragabyte::text::extension_of(".bashrc"), None);
    assert_eq!(dragabyte::text::extension_of("noext"), None);
}

#[test]
fn text_helpers_trim_and_contains() {
    assert_eq!(dragabyte::text::trim_str("  hello \t"), "hello");
    assert_eq!(dragabyte::text::strip_leading_dots("...ext"), "ext");
    assert!(dragabyte::text::str_contains("hello world", "lo wo"));
    assert!(!dragabyte::text::str_contains("hello", "world"));
    assert!(dragabyte::text::str_contains("anything", ""));
    assert!(dragabyte::text::str_eq("same", "same"));
    assert!(!dragabyte::text::str_eq("same", "Same"));
    assert!(dragabyte::text::str_le("apple", "banana"));
    assert!(dragabyte::text::str_le("app", "apple"));
    assert!(!dragabyte::text::str_le("banana", "apple"));
}

#[test]
fn extension_normalization_deduplicates() {
    // "TXT", " .txt " and "..TXT" all clean to the same extension: one
    // criterion results, and matching is unaffected.
    let mut raw = ScanFilters::none();
    raw.include_extensions = strings(&["TXT", " .txt ", "..TXT", "log"]);
    let f = compiled(raw);
    assert_eq!(f.include_extensions.len(), 2);
    assert_eq!(f.include_extensions[0], "txt");
    assert_eq!(f.include_extensions[1], "log");
    assert!(f.include_file("/a/readme.txt", 1));
    assert!(f.include_file("/a/server.log", 1));
    assert!(!f.include_file("/a/image.png", 1));
}

#[test]
fn name_normalization_keeps_order_and_duplicates() {
    let out = dragabyte::filter::normalize_list(&strings(&[" B ", "", "a", "b"]));
    assert_eq!(out, strings(&["b", "a", "b"]));
}
