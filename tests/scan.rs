use finding::{
    huge_file_report, parse_file_exts, parse_target, size_bytes, CountCell, DirVerdict, HugeScan,
    Options, OptionsError, ScanError, Target, TextScan,
};

fn text_scan(search: &str, setup: impl FnOnce(&mut Options)) -> TextScan {
    let mut o = Options::new();
    o.search_text = search.to_string();
    setup(&mut o);
    match TextScan::new(o) {
        Ok(s) => s,
        Err(_) => panic!("the scan was refused"),
    }
}

#[test]
fn count_cell_accumulates() {
    let mut c = CountCell::new();
    assert_eq!(c.get(), 0);
    c.add_one();
    c.add(41);
    assert_eq!(c.get(), 42);
}

#[test]
fn default_options() {
    let o = Options::new();
    assert_eq!(o.target, "text");
    assert_eq!(o.dir, ".");
    assert_eq!(o.huge_file_size, "100M");
    assert_eq!(o.large_text_file_size, "10M");
    assert_eq!(o.large_line_size, "10KB");
    assert!(!o.ignore_case && !o.scan_dot_git && !o.skip_dot_dir && !o.skip_link_dir);
    assert!(o.search_text.is_empty() && o.file_ext.is_empty());
}

#[test]
fn sizes_parse_to_bytes() {
    let mut o = Options::new();
    assert!(o.parse_sizes().is_ok());
    assert_eq!(o.parsed_huge_file_size, 100 * 1024 * 1024);
    assert_eq!(o.parsed_large_text_file_size, 10 * 1024 * 1024);
    assert_eq!(o.parsed_large_line_size, 10 * 1024);
    assert_eq!(size_bytes("1k"), Some(1024));
    assert_eq!(size_bytes("512"), Some(512));
}

#[test]
fn malformed_size_is_refused_unchanged() {
    let mut o = Options::new();
    o.large_text_file_size = "lots".to_string();
    match o.parse_sizes() {
        Err(OptionsError::MalformedSize(t)) => assert_eq!(t, "lots"),
        Ok(()) => panic!("a malformed size was taken"),
    }
    assert_eq!(o.parsed_huge_file_size, 0);
    assert_eq!(size_bytes("abc"), None);
    assert_eq!(size_bytes(""), None);
}

#[test]
fn negative_size_is_taken_as_cast() {
    assert_eq!(size_bytes("-1"), Some(u64::MAX));
    let mut o = Options::new();
    o.large_line_size = "-5".to_string();
    assert!(o.parse_sizes().is_ok());
    assert_eq!(o.parsed_large_line_size, (-5i64) as u64);
}

#[test]
fn target_names_the_scan() {
    assert_eq!(parse_target("huge"), Some(Target::Huge));
    assert_eq!(parse_target("hugefile"), Some(Target::Huge));
    assert_eq!(parse_target("text"), Some(Target::Text));
    assert_eq!(parse_target("Text"), None);
    assert_eq!(parse_target("hug"), None);
    assert_eq!(parse_target(""), None);
}

#[test]
fn empty_search_text_refuses_the_scan() {
    let o = Options::new();
    assert!(matches!(TextScan::new(o), Err(ScanError::EmptySearchText)));
}

#[test]
fn extension_list_is_trimmed_and_lowered() {
    assert_eq!(parse_file_exts("rs, TXT,,  "), vec![".rs", ".txt"]);
    assert!(parse_file_exts("").is_empty());
    assert!(parse_file_exts(" , ").is_empty());
    assert_eq!(parse_file_exts("\u{3000}md\u{a0},\tc\n"), vec![".md", ".c"]);
}

#[test]
fn default_options_admit_every_file() {
    let mut s = text_scan("x", |_| {});
    assert!(s.admit_file("/r/a.txt"));
    assert!(s.admit_file("/r/noext"));
    assert_eq!(s.counts(), (0, 0, 2, 0, 0));
}

#[test]
fn directory_rules_apply_in_order() {
    let mut s = text_scan("x", |o| {
        o.skip_target_dir = true;
        o.skip_dot_dir = true;
        o.skip_link_dir = true;
    });
    assert!(s.enter_dir("/r/.git", false) == DirVerdict::DotGit);
    assert!(s.enter_dir("/r/target", true) == DirVerdict::Target);
    assert!(s.enter_dir("/r/.cache/sub", false) == DirVerdict::DotDir);
    assert!(s.enter_dir("/r/linked", true) == DirVerdict::Link);
    assert!(s.enter_dir("/r/src", false) == DirVerdict::Scan);
    assert_eq!(s.counts(), (5, 1, 0, 0, 0));
    s.pass_dir();
    assert_eq!(s.counts(), (6, 1, 0, 0, 0));
}

#[test]
fn git_directories_scanned_on_request() {
    let mut s = text_scan("x", |o| o.scan_dot_git = true);
    assert!(s.enter_dir("/r/.git", false) == DirVerdict::Scan);
    assert!(s.enter_dir("/r/target", false) == DirVerdict::Scan);
    assert!(s.enter_dir("/r/.hidden", true) == DirVerdict::Scan);
    assert_eq!(s.counts(), (3, 3, 0, 0, 0));
}

#[test]
fn extension_filter_keeps_files_unread() {
    let mut s = text_scan("x", |o| o.file_ext = "rs,txt".to_string());
    assert!(s.admit_file("/r/a.RS"));
    assert!(s.admit_file("/r/b.txt"));
    assert!(!s.admit_file("/r/c.log"));
    assert!(!s.admit_file("/r/rs"));
    // met, but not scanned
    assert_eq!(s.counts(), (0, 0, 4, 0, 0));
}

#[test]
fn file_name_filter_applies_to_the_path() {
    let mut s = text_scan("x", |o| o.filter_file_name = "src".to_string());
    assert!(s.admit_file("/r/src/a.rs"));
    assert!(!s.admit_file("/r/doc/a.rs"));
    assert_eq!(s.counts(), (0, 0, 2, 0, 0));
}

#[test]
fn file_size_limit_is_exclusive() {
    let s = text_scan("x", |o| o.parsed_large_text_file_size = 100);
    assert!(s.admits_size(99));
    assert!(!s.admits_size(100));
}

#[test]
fn scanning_content_counts_matches() {
    let mut s = text_scan("hello", |_| {});
    assert!(s.admit_file("/r/a"));
    assert_eq!(s.scan_content("hello\n").len(), 1);
    assert!(s.admit_file("/r/b"));
    assert!(s.scan_content("bye\n").is_empty());
    assert!(s.admit_file("/r/c"));
    assert_eq!(s.counts(), (0, 0, 3, 2, 1));
}

#[test]
fn huge_file_threshold_is_inclusive() {
    let mut o = Options::new();
    o.parsed_huge_file_size = 1000;
    let mut s = HugeScan::new(&o);
    assert!(s.visit_file(Some(1000)));
    assert!(!s.visit_file(Some(999)));
    assert!(s.visit_file(Some(5000)));
    assert!(!s.visit_file(None));
    assert_eq!(s.counts(), (4, 2, 6000));
}

#[test]
fn huge_scan_prunes_links_only_when_asked() {
    let mut o = Options::new();
    let s = HugeScan::new(&o);
    assert!(s.admits_dir(true));
    o.skip_link_dir = true;
    let s = HugeScan::new(&o);
    assert!(!s.admits_dir(true));
    assert!(s.admits_dir(false));
}

#[test]
fn huge_report_line_shows_display_size() {
    assert_eq!(huge_file_report("/r/big.iso", 1024), "/r/big.iso [1.00KiB]");
    assert_eq!(huge_file_report("/r/one", 1), "/r/one [1 byte]");
    assert_eq!(huge_file_report("/r/m", 1572864), "/r/m [1.50MiB]");
}
