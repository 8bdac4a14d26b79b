use finding::{contains_str, match_lines, split_lines, split_text, MatchLine, Options};

fn search_options(search: &str) -> Options {
    let mut o = Options::new();
    o.search_text = search.to_string();
    o
}

fn numbers_and_texts(lines: &[MatchLine]) -> Vec<(usize, String)> {
    lines.iter().map(|m| (m.line_number, m.line_string.clone())).collect()
}

#[test]
fn lines_split_at_line_feeds() {
    assert_eq!(split_lines("hello\nworld\n"), vec!["hello", "world"]);
    assert_eq!(split_lines("hello\nworld"), vec!["hello", "world"]);
    assert_eq!(split_lines("a\n\nb"), vec!["a", "", "b"]);
}

#[test]
fn lines_drop_carriage_return_before_line_feed() {
    assert_eq!(split_lines("a\r\nb\r\n"), vec!["a", "b"]);
    assert_eq!(split_lines("x\r"), vec!["x\r"]);
}

#[test]
fn empty_content_has_no_lines() {
    assert!(split_lines("").is_empty());
    assert_eq!(split_lines("\n"), vec![""]);
}

#[test]
fn contains_finds_substrings() {
    assert!(contains_str("foo bar Foo", "Foo"));
    assert!(!contains_str("foo bar", "Foo"));
    assert!(contains_str("abc", ""));
    assert!(contains_str("naïve café", "é"));
}

#[test]
fn case_insensitive_search_matches_other_casing() {
    let mut o = search_options("Foo");
    o.ignore_case = true;
    let found = match_lines("foo bar Foo", &o);
    assert_eq!(numbers_and_texts(&found), vec![(0, "foo bar Foo".to_string())]);
    let found = match_lines("only foo here", &o);
    assert_eq!(numbers_and_texts(&found), vec![(0, "only foo here".to_string())]);
}

#[test]
fn case_sensitive_search_needs_exact_casing() {
    let o = search_options("Foo");
    assert_eq!(match_lines("foo bar Foo", &o).len(), 1);
    assert!(match_lines("only foo here", &o).is_empty());
}

#[test]
fn match_lines_numbers_from_zero_and_keeps_text() {
    let o = search_options("hello");
    let found = match_lines("hello\nworld\nsay Hello\nhello again\n", &o);
    assert_eq!(
        numbers_and_texts(&found),
        vec![(0, "hello".to_string()), (3, "hello again".to_string())]
    );
}

#[test]
fn long_lines_are_skipped_when_filtered() {
    let mut o = search_options("needle");
    o.filter_large_line = true;
    o.parsed_large_line_size = 10;
    let found = match_lines("needle\na needle that is long\nneedle ok\n", &o);
    assert_eq!(
        numbers_and_texts(&found),
        vec![(0, "needle".to_string()), (2, "needle ok".to_string())]
    );
    // a line of exactly the limit is skipped too
    let found = match_lines("needle1234", &o);
    assert!(found.is_empty());
    o.filter_large_line = false;
    assert_eq!(match_lines("a needle that is long", &o).len(), 1);
}

#[test]
fn long_line_limit_counts_bytes() {
    let mut o = search_options("é");
    o.filter_large_line = true;
    o.parsed_large_line_size = 4;
    // three characters, but four bytes
    assert!(match_lines("aéb", &o).is_empty());
    assert_eq!(match_lines("éb", &o).len(), 1);
}

#[test]
fn line_content_filter_must_also_match() {
    let mut o = search_options("hello");
    o.filter_line_content = "world".to_string();
    let found = match_lines("hello\nhello world\nworld\n", &o);
    assert_eq!(numbers_and_texts(&found), vec![(1, "hello world".to_string())]);
}

#[test]
fn highlight_split_gives_pieces_between_occurrences() {
    let parts = split_text("aXbXc", "X");
    assert_eq!(parts, vec!["a", "b", "c"]);
    assert_eq!(parts.join("X"), "aXbXc");
}

#[test]
fn highlight_split_on_multibyte_boundaries() {
    let line = "aé€bé€cé€";
    let parts = split_text(line, "é€");
    assert_eq!(parts, vec!["a", "b", "c", ""]);
    assert_eq!(parts.join("é€"), line);
    let parts = split_text("日本語の日本", "本");
    assert_eq!(parts, vec!["日", "語の日", ""]);
    assert_eq!(parts.join("本"), "日本語の日本");
}

#[test]
fn highlight_split_without_overlap() {
    assert_eq!(split_text("aaaa", "aa"), vec!["", "", ""]);
    assert_eq!(split_text("aaa", "aa"), vec!["", "a"]);
    assert_eq!(split_text("abc", "x"), vec!["abc"]);
    assert_eq!(split_text("abc", ""), vec!["abc"]);
}

#[test]
fn display_parts_follow_the_case_mode() {
    let mut o = search_options("X");
    let m = MatchLine::new(4, "aXbXc".to_string());
    assert_eq!(m.display_parts(&o), vec!["a", "b", "c"]);
    o.ignore_case = true;
    assert_eq!(m.display_parts(&o), vec!["aXbXc"]);
}
