use std::collections::HashMap;

use finding::{DirEntry, DirVerdict, EntryKind, MatchLine, Options, TextScan, WalkError, WalkStep, Walker, MAX_DEPTH};

/// A directory tree held in memory: the listing of each directory that can
/// be listed, and the content of each file.
#[derive(Default)]
struct Tree {
    dirs: HashMap<String, Vec<(String, EntryKind)>>,
    files: HashMap<String, String>,
}

impl Tree {
    fn dir(&mut self, path: &str) {
        self.dirs.entry(path.to_string()).or_default();
        if let Some(i) = path.rfind('/') {
            if i > 0 {
                self.dir(&path[..i]);
                self.add(&path[..i], path, EntryKind::Dir);
            }
        }
    }

    fn file(&mut self, path: &str, content: &str) {
        let i = path.rfind('/').unwrap();
        self.dir(&path[..i]);
        self.add(&path[..i], path, EntryKind::File);
        self.files.insert(path.to_string(), content.to_string());
    }

    fn add(&mut self, dir: &str, path: &str, kind: EntryKind) {
        let entries = self.dirs.entry(dir.to_string()).or_default();
        if !entries.iter().any(|(p, _)| p == path) {
            entries.push((path.to_string(), kind));
        }
    }

    fn listing(&self, path: &str) -> Option<Vec<DirEntry>> {
        self.dirs
            .get(path)
            .map(|v| v.iter().map(|(p, k)| DirEntry::new(p.clone(), *k)).collect())
    }
}

/// What a walk did: files visited, directories asked about, failures.
#[derive(Default)]
struct Trace {
    files: Vec<String>,
    asked: Vec<String>,
    listed: Vec<String>,
    errors: Vec<(String, WalkError)>,
}

fn walk(tree: &Tree, root: &str, mut decide: impl FnMut(&str) -> bool) -> Trace {
    let mut trace = Trace::default();
    let mut w = Walker::new(root.to_string());
    loop {
        match w.next_step() {
            WalkStep::List(p) => {
                trace.listed.push(p.clone());
                w.listed(tree.listing(&p));
            }
            WalkStep::VisitFile(p) => trace.files.push(p),
            WalkStep::EnterDir(p) => {
                trace.asked.push(p.clone());
                let yes = decide(&p);
                w.admitted(yes);
            }
            WalkStep::Report(p, e) => trace.errors.push((p, e)),
            WalkStep::Pass => {}
            WalkStep::Done => break,
        }
    }
    trace
}

fn sorted(mut v: Vec<String>) -> Vec<String> {
    v.sort();
    v
}

#[test]
fn walk_visits_every_file_and_directory_once() {
    let mut t = Tree::default();
    t.dir("/r");
    t.file("/r/a", "");
    t.file("/r/d1/b", "");
    t.file("/r/d1/d2/c", "");
    t.file("/r/d3/e", "");
    t.dir("/r/empty");
    let trace = walk(&t, "/r", |_| true);
    assert_eq!(sorted(trace.files), vec!["/r/a", "/r/d1/b", "/r/d1/d2/c", "/r/d3/e"]);
    assert_eq!(sorted(trace.asked), vec!["/r/d1", "/r/d1/d2", "/r/d3", "/r/empty"]);
    assert!(trace.errors.is_empty());
}

#[test]
fn pruned_directory_hides_its_descendants() {
    let mut t = Tree::default();
    t.file("/r/a", "");
    t.file("/r/skip/b", "");
    t.file("/r/skip/deeper/c", "");
    t.file("/r/keep/d", "");
    let trace = walk(&t, "/r", |p| !p.ends_with("/skip"));
    assert_eq!(sorted(trace.files), vec!["/r/a", "/r/keep/d"]);
    assert_eq!(sorted(trace.asked), vec!["/r/keep", "/r/skip"]);
    assert!(!trace.listed.iter().any(|p| p.starts_with("/r/skip")));
}

#[test]
fn other_entries_get_no_callback() {
    let mut t = Tree::default();
    t.dir("/r");
    t.add("/r", "/r/broken-link", EntryKind::Other);
    t.file("/r/a", "");
    let trace = walk(&t, "/r", |_| true);
    assert_eq!(trace.files, vec!["/r/a"]);
    assert!(trace.asked.is_empty() && trace.errors.is_empty());
}

#[test]
fn unlistable_directory_is_reported_and_walk_goes_on() {
    let mut t = Tree::default();
    t.file("/r/a", "");
    t.add("/r", "/r/locked", EntryKind::Dir);
    t.add("/r", "/r/unreadable", EntryKind::Unreadable);
    t.file("/r/z", "");
    let trace = walk(&t, "/r", |_| true);
    assert_eq!(sorted(trace.files), vec!["/r/a", "/r/z"]);
    assert!(trace.errors.contains(&("/r/locked".to_string(), WalkError::ListFailed)));
    assert!(trace.errors.contains(&("/r".to_string(), WalkError::EntryFailed)));
    assert_eq!(trace.errors.len(), 2);
}

#[test]
fn unlistable_root_ends_the_walk() {
    let t = Tree::default();
    let trace = walk(&t, "/nowhere", |_| true);
    assert_eq!(trace.errors, vec![("/nowhere".to_string(), WalkError::ListFailed)]);
    assert!(trace.files.is_empty());
}

#[test]
fn deep_tree_stops_at_the_depth_bound() {
    let mut t = Tree::default();
    let mut path = "/r".to_string();
    t.dir(&path);
    for _ in 0..150 {
        path.push_str("/d");
        t.file(&format!("{}/f", path), "");
    }
    t.file("/r/sibling", "");
    let trace = walk(&t, "/r", |_| true);
    // the root and the levels below it down to the deepest one are listed
    assert_eq!(trace.listed.len(), MAX_DEPTH + 1);
    assert_eq!(trace.errors.len(), 1);
    let (p, e) = &trace.errors[0];
    assert_eq!(*e, WalkError::DepthExceeded);
    assert_eq!(p.matches("/d").count(), MAX_DEPTH + 1);
    // one file at each listed level below the root, and the sibling
    assert_eq!(trace.files.len(), MAX_DEPTH + 1);
    assert!(trace.files.contains(&"/r/sibling".to_string()));
}

#[test]
fn symlink_cycle_stops_at_the_depth_bound() {
    // a directory whose listing holds itself again, as a link loop would
    let mut t = Tree::default();
    t.dirs.insert("/r".to_string(), vec![("/r".to_string(), EntryKind::Dir)]);
    let trace = walk(&t, "/r", |_| true);
    assert_eq!(trace.listed.len(), MAX_DEPTH + 1);
    assert_eq!(trace.errors, vec![("/r".to_string(), WalkError::DepthExceeded)]);
}

fn text_search(t: &Tree, root: &str, mut scan: TextScan) -> (Vec<(String, Vec<MatchLine>)>, TextScan) {
    let mut found = Vec::new();
    let mut w = Walker::new(root.to_string());
    loop {
        match w.next_step() {
            WalkStep::List(p) => w.listed(t.listing(&p)),
            WalkStep::VisitFile(p) => {
                if scan.admit_file(&p) {
                    let content = &t.files[&p];
                    if scan.admits_size(content.len() as u64) {
                        let lines = scan.scan_content(content);
                        if !lines.is_empty() {
                            found.push((p, lines));
                        }
                    }
                }
            }
            WalkStep::EnterDir(p) => {
                let yes = scan.enter_dir(&p, false) == DirVerdict::Scan;
                w.admitted(yes);
            }
            WalkStep::Report(..) | WalkStep::Pass => {}
            WalkStep::Done => break,
        }
    }
    found.sort_by(|a, b| a.0.cmp(&b.0));
    (found, scan)
}

#[test]
fn end_to_end_text_search() {
    let mut t = Tree::default();
    t.file("/r/a.txt", "hello\nworld\n");
    t.file("/r/b.log", "hello again\n");
    t.file("/r/.git/config", "hello\n");
    let mut o = Options::new();
    o.search_text = "hello".to_string();
    o.parse_sizes().ok().unwrap();
    let scan = TextScan::new(o).ok().unwrap();
    let (found, scan) = text_search(&t, "/r", scan);
    let report: Vec<(String, usize, String)> = found
        .iter()
        .flat_map(|(p, ls)| ls.iter().map(move |m| (p.clone(), m.line_number + 1, m.line_string.clone())))
        .collect();
    assert_eq!(
        report,
        vec![
            ("/r/a.txt".to_string(), 1, "hello".to_string()),
            ("/r/b.log".to_string(), 1, "hello again".to_string()),
        ]
    );
    let (total_dirs, scanned_dirs, total_files, scanned_files, matched_files) = scan.counts();
    assert_eq!((total_dirs, scanned_dirs), (1, 0));
    assert_eq!((total_files, scanned_files, matched_files), (2, 2, 2));
}

#[test]
fn extension_filtered_files_are_never_read() {
    let mut t = Tree::default();
    t.file("/r/a.txt", "hello\n");
    t.file("/r/b.log", "hello\n");
    let mut o = Options::new();
    o.search_text = "hello".to_string();
    o.file_ext = "txt".to_string();
    o.parsed_large_text_file_size = 1000;
    let scan = TextScan::new(o).ok().unwrap();
    let (found, scan) = text_search(&t, "/r", scan);
    assert_eq!(found.len(), 1);
    assert_eq!(found[0].0, "/r/a.txt");
    assert_eq!(scan.counts(), (0, 0, 2, 1, 1));
}
